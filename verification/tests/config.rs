use std::sync::Arc;

use tessera::config::{
    ConfigError, FontSize, KEY_J, KEY_RETURN, KEY_SPACE, MOD_CONTROL, MOD_SUPER,
};
use tessera::document::{read_document, Node};
use tessera::{BarConfig, BarPosition, Color, Config, KeyCombo, Keybindings};

#[test]
fn defaults_are_border_2_gaps_3_alacritty() {
    let c = Config::default();
    assert_eq!(c.general.border_width, 2);
    assert_eq!(c.general.gaps, 3);
    assert_eq!(c.general.terminal, "alacritty");
}

#[test]
fn default_keybindings_cover_super_combos() {
    let c = Config::default();
    assert_eq!(
        c.keybindings.terminal,
        KeyCombo {
            mods: MOD_SUPER,
            key: KEY_RETURN,
        }
    );
    assert_eq!(
        c.keybindings.focus_next,
        KeyCombo {
            mods: MOD_SUPER,
            key: KEY_J,
        }
    );
    assert_eq!(
        c.keybindings.workspace[0],
        KeyCombo {
            mods: MOD_SUPER,
            key: 0x0031,
        }
    );
    assert_eq!(
        c.keybindings.workspace[9],
        KeyCombo {
            mods: MOD_SUPER,
            key: 0x0030,
        }
    );
}

#[test]
fn parses_valid_toml_overriding_defaults() {
    let raw = "[general]\nborder_width = 4\ngaps = 6\nterminal = \"foot\"\n";
    let c = Config::parse(raw).expect("valid toml");
    assert_eq!(c.general.border_width, 4);
    assert_eq!(c.general.gaps, 6);
    assert_eq!(c.general.terminal, "foot");
    assert_eq!(
        c.keybindings.terminal,
        KeyCombo {
            mods: MOD_SUPER,
            key: KEY_RETURN,
        }
    );
}

#[test]
fn rejects_malformed_toml() {
    assert!(Config::parse("general = { border_width = ").is_err());
}

#[test]
fn rejects_unknown_fields() {
    assert!(Config::parse("[general]\nbogus = 1\n").is_err());
    assert!(Config::parse("bogus_section = 1\n").is_err());
}

#[test]
fn reload_keeps_old_config_on_parse_error() {
    let mut shared = Arc::new(Config::default());
    let before = Arc::clone(&shared);
    assert!(!Config::reload(&mut shared, "not [valid toml"));
    assert!(Arc::ptr_eq(&shared, &before));
    assert_eq!(shared.general.border_width, 2);
}

#[test]
fn reload_swaps_in_new_config() {
    let mut shared = Arc::new(Config::default());
    assert!(Config::reload(
        &mut shared,
        "[general]\nborder_width = 12\n"
    ));
    assert_eq!(shared.general.border_width, 12);
    assert_eq!(shared.general.terminal, "alacritty");
}

#[test]
fn default_theme_option_is_none() {
    let c = Config::default();
    assert_eq!(c.general.theme, None);
}

#[test]
fn theme_path_round_trips_through_parse() {
    let c = Config::parse("[general]\ntheme = \"themes/ayu.toml\"\n").expect("valid toml");
    assert_eq!(c.general.theme, Some("themes/ayu.toml".to_string()));
    let d =
        Config::parse("[general]\nborder_width = 4\ntheme = \"dark.toml\"\n").expect("valid");
    assert_eq!(d.general.theme, Some("dark.toml".to_string()));
    let e = Config::parse("[general]\ngaps = 6\n").expect("valid");
    assert_eq!(e.general.theme, None);
}

#[test]
fn bar_defaults_when_table_absent() {
    let c = Config::parse("[general]\n").expect("valid toml");
    assert_eq!(c.bar.position, BarPosition::Top);
    assert_eq!(c.bar.thickness, None);
    assert_eq!(c.bar.bg_color, Color::parse_hex("#222222").expect("hex"));
    assert_eq!(c.bar.fg_color, Color::parse_hex("#eeeeee").expect("hex"));
    assert!(c.bar.visible);
    assert_eq!(Config::default().bar, BarConfig::default());
    assert_eq!(Config::default().bar, c.bar);
}

#[test]
fn bar_position_parses_all_lowercase_variants() {
    for (raw, want) in [
        ("top", BarPosition::Top),
        ("bottom", BarPosition::Bottom),
        ("left", BarPosition::Left),
        ("right", BarPosition::Right),
    ] {
        let c = Config::parse(&format!("[bar]\nposition = \"{raw}\"\n")).expect("valid toml");
        assert_eq!(c.bar.position, want);
    }
}

#[test]
fn bar_full_explicit_config_applies() {
    let raw = "[bar]\nposition = \"bottom\"\nthickness = 28\nbg_color = \"#112233\"\nfg_color = \"#445566\"\nvisible = true\n";
    let c = Config::parse(raw).expect("valid toml");
    assert_eq!(c.bar.position, BarPosition::Bottom);
    assert_eq!(c.bar.thickness, Some(28));
    assert_eq!(c.bar.bg_color, Color::parse_hex("#112233").expect("hex"));
    assert_eq!(c.bar.fg_color, Color::parse_hex("#445566").expect("hex"));
    assert!(c.bar.visible);
}

#[test]
fn bar_rejects_unknown_field_naming_key() {
    let err = Config::parse("[bar]\nflavor = \"cherry\"\n").expect_err("must reject");
    assert!(
        format!("{err:?}").contains("flavor"),
        "unexpected err: {err:?}"
    );
    assert!(
        format!("{err:?}").contains("expected one of"),
        "unexpected err: {err:?}"
    );
}

#[test]
fn bar_rejects_thickness_zero() {
    let err = Config::parse("[bar]\nthickness = 0\n").expect_err("must reject");
    assert!(
        format!("{err:?}").contains("thickness"),
        "unexpected err: {err:?}"
    );
}

#[test]
fn bar_rejects_thickness_above_200() {
    for n in [201u16, 1000] {
        let raw = format!("[bar]\nthickness = {n}\n");
        let err = Config::parse(&raw).expect_err("must reject");
        assert!(
            format!("{err:?}").contains("thickness"),
            "unexpected err: {err:?}"
        );
    }
}

#[test]
fn bar_visible_false_parses() {
    let c = Config::parse("[bar]\nvisible = false\n").expect("valid toml");
    assert!(!c.bar.visible);
    assert_eq!(c.bar.position, BarPosition::Top);
    assert_eq!(c.bar.thickness, None);
}

#[test]
fn bar_rejects_invalid_position_string() {
    let err = Config::parse("[bar]\nposition = \"diagonal\"\n").expect_err("must reject");
    assert!(
        format!("{err:?}").contains("position"),
        "unexpected err: {err:?}"
    );
}

#[test]
fn bar_rejects_non_rrggbb_colors() {
    let err = Config::parse("[bar]\nbg_color = \"red\"\n").expect_err("must reject");
    assert!(
        format!("{err:?}").contains("bg_color"),
        "unexpected err: {err:?}"
    );
    let err = Config::parse("[bar]\nfg_color = \"#12345\"\n").expect_err("must reject");
    assert!(
        format!("{err:?}").contains("fg_color"),
        "unexpected err: {err:?}"
    );
}

#[test]
fn bar_types_reexported_from_crate_root() {
    assert_eq!(tessera::BarPosition::Top, BarPosition::Top);
    let _ = tessera::BarConfig::default();
}

#[test]
fn launcher_defaults_to_rofi_drun() {
    let c = Config::default();
    assert_eq!(c.general.launcher, vec!["rofi", "-show", "drun"]);
    let d = Config::parse("[general]\n").expect("valid toml");
    assert_eq!(c.general.launcher, d.general.launcher);
}

#[test]
fn launcher_override_replaces_default() {
    let c = Config::parse("[general]\nlauncher = [\"dmenu_run\"]\n").expect("valid toml");
    assert_eq!(c.general.launcher, vec!["dmenu_run"]);
}

#[test]
fn launcher_empty_array_is_rejected_naming_field() {
    let err = Config::parse("[general]\nlauncher = []\n").expect_err("must reject");
    assert!(
        format!("{err:?}").contains("launcher"),
        "unexpected err: {err:?}"
    );
}

#[test]
fn default_launcher_keybinding_is_ctrl_space_and_round_trips() {
    let c = Config::default();
    assert_eq!(
        c.keybindings.launcher,
        KeyCombo {
            mods: MOD_CONTROL,
            key: KEY_SPACE,
        }
    );
    let d = Config::parse("[keybindings.launcher]\nmods = 4\nkey = 32\n").expect("valid toml");
    assert_eq!(d.keybindings.launcher, c.keybindings.launcher);
    assert_eq!(
        d.keybindings.launcher,
        KeyCombo {
            mods: 4,
            key: 0x0020
        }
    );
}

#[test]
fn named_key_and_mod_equal_legacy_ints() {
    let named = Config::parse("[keybindings.terminal]\nmods = \"super\"\nkey = \"Return\"\n")
        .expect("named values must parse");
    let legacy =
        Config::parse("[keybindings.terminal]\nmods = 64\nkey = 65293\n").expect("legacy ints");
    assert_eq!(
        named.keybindings.terminal, legacy.keybindings.terminal,
        "named values must resolve to the legacy int combo"
    );
    assert_eq!(
        named.keybindings.terminal,
        KeyCombo {
            mods: MOD_SUPER,
            key: KEY_RETURN,
        }
    );
}

#[test]
fn mod_combo_string_ors_masks() {
    let c =
        Config::parse("[keybindings.terminal]\nmods = \"super+control\"\nkey = \"Return\"\n")
            .expect("a+b mod list must parse");
    assert_eq!(c.keybindings.terminal.mods, 68);
    let d = Config::parse("[keybindings.close]\nmods = \"mod1+lock\"\nkey = \"q\"\n")
        .expect("mod1+lock must parse");
    assert_eq!(d.keybindings.close.mods, 8 | 2);
}

#[test]
fn single_named_mod_maps_to_its_mask() {
    let c = Config::parse("[keybindings.launcher]\nmods = \"ctrl\"\nkey = \"space\"\n")
        .expect("ctrl alias must parse");
    assert_eq!(c.keybindings.launcher.mods, MOD_CONTROL);
    assert_eq!(c.keybindings.launcher.key, KEY_SPACE);
}

#[test]
fn int_only_config_parses_unchanged() {
    let c = Config::parse(
        "[keybindings.terminal]\nmods = 64\nkey = 65293\n\
         [keybindings.close]\nmods = 64\nkey = 113\n",
    )
    .expect("legacy ints must keep parsing");
    assert_eq!(
        c.keybindings.terminal,
        KeyCombo {
            mods: 64,
            key: 0xff0d,
        }
    );
    assert_eq!(
        c.keybindings.close,
        KeyCombo {
            mods: 64,
            key: 0x0071,
        }
    );
}

#[test]
fn enter_esc_aliases_resolve_to_the_canonical_keysyms() {
    let c = Config::parse("[keybindings.terminal]\nmods = \"super\"\nkey = \"enter\"\n")
        .expect("enter alias must parse");
    assert_eq!(c.keybindings.terminal.key, KEY_RETURN);
    let d = Config::parse("[keybindings.close]\nmods = \"super\"\nkey = \"esc\"\n")
        .expect("esc alias must parse");
    assert_eq!(d.keybindings.close.key, 0xff1b);
}

#[test]
fn unknown_key_name_errors_naming_field_and_accepted_list() {
    for bad in ["Entery", "return"] {
        let raw = format!("[keybindings.terminal]\nmods = \"super\"\nkey = \"{bad}\"\n");
        let err = Config::parse(&raw).expect_err("unknown key name must be rejected");
        let msg = format!("{err:?}");
        assert!(msg.contains("key"), "error must name the field: {msg}");
        assert!(
            msg.contains("accepted"),
            "error must list accepted names: {msg}"
        );
        assert!(
            msg.contains("Return"),
            "accepted list must include the canonical name: {msg}"
        );
        assert!(
            msg.contains(bad),
            "error must echo the offending name: {msg}"
        );
    }
}

#[test]
fn named_bindings_pairs_every_field_in_grab_order() {
    let k = Keybindings::default();
    let pairs = k.named_bindings();
    let expected_names: Vec<String> = [
        "terminal",
        "focus_next",
        "focus_prev",
        "close",
        "toggle_layout",
        "launcher",
        "workspace_prev",
        "workspace_next",
        "focus_left",
        "focus_down",
        "focus_up",
        "focus_right",
    ]
    .iter()
    .map(|n| (*n).to_string())
    .chain((1..=10).map(|i| format!("workspace-{i}")))
    .chain((1..=10).map(|i| format!("move-to-workspace-{i}")))
    .collect();
    let names: Vec<String> = pairs.iter().map(|(n, _)| n.clone()).collect();
    assert_eq!(names, expected_names);
    assert_eq!(pairs.len(), 32);
    assert_eq!(pairs[0], ("terminal".to_string(), k.terminal));
    assert_eq!(pairs[1], ("focus_next".to_string(), k.focus_next));
    assert_eq!(pairs[2], ("focus_prev".to_string(), k.focus_prev));
    assert_eq!(pairs[3], ("close".to_string(), k.close));
    assert_eq!(pairs[4], ("toggle_layout".to_string(), k.toggle_layout));
    assert_eq!(pairs[5], ("launcher".to_string(), k.launcher));
    assert_eq!(pairs[6], ("workspace_prev".to_string(), k.workspace_prev));
    assert_eq!(pairs[7], ("workspace_next".to_string(), k.workspace_next));
    assert_eq!(pairs[8], ("focus_left".to_string(), k.focus_left));
    assert_eq!(pairs[9], ("focus_down".to_string(), k.focus_down));
    assert_eq!(pairs[10], ("focus_up".to_string(), k.focus_up));
    assert_eq!(pairs[11], ("focus_right".to_string(), k.focus_right));
    for i in 0..10 {
        assert_eq!(
            pairs[12 + i],
            (format!("workspace-{}", i + 1), k.workspace[i]),
            "workspace-{} must pair with k.workspace[{}], read directly from the field",
            i + 1,
            i
        );
    }
    for i in 0..10 {
        assert_eq!(
            pairs[22 + i],
            (
                format!("move-to-workspace-{}", i + 1),
                k.move_to_workspace[i]
            ),
            "move-to-workspace-{} must pair with k.move_to_workspace[{}], read directly from the field",
            i + 1,
            i
        );
    }
}

#[test]
fn named_bindings_names_the_directional_focus_bindings() {
    let k = Keybindings::default();
    let pairs = k.named_bindings();
    assert_eq!(pairs.len(), 32);
    assert_eq!(pairs[8], ("focus_left".to_string(), k.focus_left));
    assert_eq!(pairs[9], ("focus_down".to_string(), k.focus_down));
    assert_eq!(pairs[10], ("focus_up".to_string(), k.focus_up));
    assert_eq!(pairs[11], ("focus_right".to_string(), k.focus_right));
}

#[test]
fn named_bindings_names_are_unique() {
    let pairs = Keybindings::default().named_bindings();
    let mut names: Vec<&String> = pairs.iter().map(|(n, _)| n).collect();
    let before = names.len();
    names.sort();
    names.dedup();
    assert_eq!(names.len(), before, "every binding name must be unique");
}

#[test]
fn named_bindings_names_the_workspace_step_and_move_bindings() {
    let k = Keybindings::default();
    let pairs = k.named_bindings();
    assert_eq!(pairs.len(), 32);
    assert_eq!(pairs[6], ("workspace_prev".to_string(), k.workspace_prev));
    assert_eq!(pairs[7], ("workspace_next".to_string(), k.workspace_next));
    for i in 0..10 {
        assert_eq!(
            pairs[22 + i],
            (
                format!("move-to-workspace-{}", i + 1),
                k.move_to_workspace[i]
            ),
            "move-to-workspace-{} must pair with k.move_to_workspace[{}]",
            i + 1,
            i
        );
    }
}

#[test]
fn unknown_mod_name_errors_naming_field_and_accepted_list() {
    let err = Config::parse("[keybindings.terminal]\nmods = \"hyper\"\nkey = \"Return\"\n")
        .expect_err("unknown mod name must be rejected");
    let msg = format!("{err:?}");
    assert!(msg.contains("mods"), "error must name the field: {msg}");
    assert!(
        msg.contains("hyper"),
        "error must echo the offending name: {msg}"
    );
    for accepted in [
        "super", "control", "ctrl", "shift", "alt", "mod1", "mod2", "mod3", "mod4", "mod5",
        "lock",
    ] {
        assert!(
            msg.contains(accepted),
            "accepted list must include {accepted}: {msg}"
        );
    }
}

fn table(entries: Vec<(&str, Node)>) -> Node {
    Node::Table(
        entries
            .into_iter()
            .map(|(k, v)| (k.to_string(), v))
            .collect(),
    )
}

fn text(s: &str) -> Node {
    Node::Text(s.to_string())
}

fn message(raw: &str) -> String {
    match Config::parse(raw) {
        Ok(c) => panic!("expected rejection, got {c:?}"),
        Err(ConfigError::Parse(m)) => m,
        Err(other) => panic!("expected a parse error, got {other:?}"),
    }
}

#[test]
fn an_empty_file_is_the_default_config() {
    assert_eq!(Config::parse(""), Ok(Config::default()));
    assert_eq!(
        Config::decode(&Node::Table(Vec::new())),
        Ok(Config::default())
    );
    assert_eq!(
        Config::parse("[general]\n[keybindings]\n[bar]\n"),
        Ok(Config::default())
    );
}

#[test]
fn the_h_and_l_keys_have_names() {
    let c = Config::parse("[keybindings.workspace_prev]\nmods = \"super\"\nkey = \"h\"\n")
        .expect("h is a key name");
    assert_eq!(c.keybindings.workspace_prev, Config::default().keybindings.workspace_prev);
    let c = Config::parse("[keybindings.workspace_next]\nmods = \"super\"\nkey = \"l\"\n")
        .expect("l is a key name");
    assert_eq!(c.keybindings.workspace_next, Config::default().keybindings.workspace_next);
}

#[test]
fn font_and_font_size_are_read_as_written() {
    let c = Config::parse("[bar]\nfont = \"/x.ttf\"\nfont_size = 14\n").expect("valid");
    assert_eq!(c.bar.font, "/x.ttf");
    assert_eq!(c.bar.font_size, FontSize::Whole(14));
    let c = Config::parse("[bar]\nfont_size = 10.5\n").expect("valid");
    assert_eq!(c.bar.font_size, FontSize::Bits(10.5f64.to_bits()));
    assert_eq!(
        BarConfig::default().font_size,
        FontSize::Bits(12.0f64.to_bits())
    );
    assert_eq!(
        message("[bar]\nfont_size = true\n"),
        "bar: font_size: invalid type: boolean, expected f32"
    );
}

#[test]
fn numbers_out_of_range_are_rejected() {
    assert_eq!(
        message("[general]\nborder_width = -1\n"),
        "general: border_width: invalid value: integer `-1`, expected u32"
    );
    assert_eq!(
        message("[general]\ngaps = 4294967296\n"),
        "general: gaps: invalid value: integer `4294967296`, expected u32"
    );
    assert_eq!(
        message("[bar]\nthickness = 70000\n"),
        "bar: thickness: invalid value: integer `70000`, expected u16"
    );
    assert_eq!(
        message("[bar]\nthickness = 201\n"),
        "bar: thickness: bar.thickness must be in 1..=200"
    );
    assert_eq!(
        message("[keybindings.close]\nmods = -3\nkey = 1\n"),
        "keybindings: close: mods: mods: modifier must be a non-negative u32, got -3"
    );
}

#[test]
fn wrong_types_are_named() {
    assert_eq!(
        message("general = 3\n"),
        "general: invalid type: integer, expected a table"
    );
    assert_eq!(
        message("[general]\nlauncher = \"rofi\"\n"),
        "general: launcher: invalid type: string, expected a sequence"
    );
    assert_eq!(
        message("[general]\nlauncher = [\"a\", 1.5]\n"),
        "general: launcher: invalid type: float, expected a string"
    );
    assert_eq!(
        message("[bar]\nvisible = \"yes\"\n"),
        "bar: visible: invalid type: string, expected a boolean"
    );
    assert_eq!(
        message("[general]\nterminal = 1979-05-27\n"),
        "general: terminal: invalid type: datetime, expected a string"
    );
    assert_eq!(
        message("[keybindings.close]\nmods = []\nkey = 1\n"),
        "keybindings: close: mods: invalid type: array, expected an integer modifier or a named modifier from the committed dictionary"
    );
}

#[test]
fn a_combination_needs_both_parts_and_ignores_the_rest() {
    assert_eq!(
        message("[keybindings.close]\nkey = 1\n"),
        "keybindings: close: missing field `mods`"
    );
    assert_eq!(
        message("[keybindings.close]\nmods = 1\n"),
        "keybindings: close: missing field `key`"
    );
    let c = Config::parse("[keybindings.close]\nmods = 1\nkey = 2\ncomment = \"mine\"\n")
        .expect("extra keys of a combination do not matter");
    assert_eq!(c.keybindings.close, KeyCombo { mods: 1, key: 2 });
}

#[test]
fn ten_workspace_combinations_are_needed() {
    let mut raw = String::new();
    for i in 0..10 {
        raw.push_str(&format!("[[keybindings.workspace]]\nmods = 4\nkey = {i}\n"));
    }
    let c = Config::parse(&raw).expect("ten combinations");
    assert_eq!(c.keybindings.workspace[9], KeyCombo { mods: 4, key: 9 });
    assert_eq!(
        message("[[keybindings.workspace]]\nmods = 4\nkey = 1\n"),
        "keybindings: workspace: invalid length 1, expected an array of length 10"
    );
}

#[test]
fn combinations_may_be_written_as_arrays() {
    let c = Config::parse("[keybindings]\nclose = [64, \"q\"]\n").expect("positional form");
    assert_eq!(c.keybindings.close, Config::default().keybindings.close);
}

#[test]
fn a_modifier_list_with_an_unknown_part_names_that_part() {
    let m = message("[keybindings.close]\nmods = \"super+hyper\"\nkey = 1\n");
    assert!(m.contains("unknown modifier 'hyper'"), "{m}");
    let m = message("[keybindings.close]\nmods = \"super+\"\nkey = 1\n");
    assert!(m.contains("unknown modifier ''"), "{m}");
}

#[test]
fn every_edge_name_but_no_other_spelling_is_accepted() {
    assert_eq!(
        message("[bar]\nposition = \"Top\"\n"),
        "bar: position: unknown variant `Top`, expected one of `top`, `bottom`, `left`, `right`"
    );
}

#[test]
fn documents_keep_every_kind_of_value() {
    let doc = read_document(
        "a = \"x\"\nb = -4\nc = 1.5\nd = true\ne = 07:32:00\nf = [1, [2]]\n[g]\nh = 0\n",
    )
    .expect("valid");
    let Node::Table(entries) = doc else {
        panic!("a document is a table");
    };
    let keys: Vec<&str> = entries.iter().map(|(k, _)| k.as_str()).collect();
    assert_eq!(keys, vec!["a", "b", "c", "d", "e", "f", "g"]);
    assert!(matches!(&entries[0].1, Node::Text(s) if s == "x"));
    assert!(matches!(&entries[1].1, Node::Integer(-4)));
    assert!(matches!(&entries[2].1, Node::Float(b) if *b == 1.5f64.to_bits()));
    assert!(matches!(&entries[3].1, Node::Boolean(true)));
    assert!(matches!(&entries[4].1, Node::Datetime(s) if s == "07:32:00"));
    let Node::Array(items) = &entries[5].1 else {
        panic!("f is an array");
    };
    assert!(matches!(&items[0], Node::Integer(1)));
    assert!(matches!(&items[1], Node::Array(inner) if inner.len() == 1));
    assert!(matches!(&entries[6].1, Node::Table(inner) if inner.len() == 1));
}

#[test]
fn malformed_documents_carry_the_parsers_message() {
    let Err(m) = read_document("not [valid toml") else {
        panic!("malformed");
    };
    assert!(m.starts_with("TOML parse error at line 1"), "{m}");
    assert_eq!(
        Config::parse("not [valid toml"),
        Err(ConfigError::Parse(m))
    );
}

#[test]
fn decoding_a_tree_is_what_parsing_its_text_gives() {
    let doc = table(vec![
        ("bar", table(vec![("position", text("left"))])),
        (
            "general",
            table(vec![("launcher", Node::Array(vec![text("dmenu_run")]))]),
        ),
    ]);
    let parsed =
        Config::parse("[bar]\nposition = \"left\"\n[general]\nlauncher = [\"dmenu_run\"]\n");
    assert_eq!(Config::decode(&doc).unwrap(), parsed.unwrap());
}

#[test]
fn adopting_a_failed_parse_keeps_the_old_config() {
    let mut shared = Arc::new(Config::default());
    let before = Arc::clone(&shared);
    assert!(!Config::adopt(
        &mut shared,
        Err(ConfigError::Parse("broken".to_string()))
    ));
    assert!(Arc::ptr_eq(&shared, &before));
    let mut new = Config::default();
    new.general.gaps = 9;
    assert!(Config::adopt(&mut shared, Ok(new)));
    assert_eq!(shared.general.gaps, 9);
}
