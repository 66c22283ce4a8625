use tessera::document::Node;
use tessera::theme::ThemeError;
use tessera::{Color, Theme};

fn hex(c: Color) -> String {
    format!("#{:02X}{:02X}{:02X}", c.r, c.g, c.b)
}

#[test]
fn default_theme_matches_canonical_ayu_dark_goldens() {
    let t = Theme::default();
    assert_eq!(hex(t.background), "#0A0E14");
    assert_eq!(hex(t.foreground), "#B3B1AD");
    assert_eq!(hex(t.comment), "#626A73");
    assert_eq!(hex(t.accent), "#FF8F40");
    assert_eq!(hex(t.yellow), "#E6B450");
    assert_eq!(hex(t.blue), "#39BAE6");
    assert_eq!(hex(t.cyan), "#95E6CB");
    assert_eq!(hex(t.green), "#AAD94C");
    assert_eq!(hex(t.magenta), "#D2A6FF");
    assert_eq!(hex(t.red), "#F25358");
}

#[test]
fn default_theme_has_no_explicit_border_overrides() {
    let t = Theme::default();
    assert_eq!(t.active_border, None);
    assert_eq!(t.inactive_border, None);
}

#[test]
fn color_parses_upper_and_lowercase_hex() {
    assert_eq!(
        Color::parse_hex("#0A0E14").expect("valid hex"),
        Color {
            r: 0x0A,
            g: 0x0E,
            b: 0x14
        }
    );
    assert_eq!(
        Color::parse_hex("#aad94c").expect("lowercase hex"),
        Color {
            r: 0xAA,
            g: 0xD9,
            b: 0x4C
        }
    );
}

#[test]
fn color_rejects_bad_hex_inputs() {
    assert!(Color::parse_hex("").is_err());
    assert!(Color::parse_hex("#12345").is_err());
    assert!(Color::parse_hex("#1234567").is_err());
    assert!(Color::parse_hex("0A0E14").is_err());
    assert!(Color::parse_hex("#GGHHII").is_err());
}

#[test]
fn derived_borders_fall_back_to_accent_and_comment() {
    let t = Theme::default();
    assert_eq!(hex(t.active_border()), "#FF8F40");
    assert_eq!(hex(t.inactive_border()), "#626A73");
    assert_ne!(t.active_border(), t.inactive_border());
}

#[test]
fn explicit_borders_override_derived_defaults() {
    let t = Theme {
        active_border: Some(Color::parse_hex("#112233").expect("valid hex")),
        inactive_border: Some(Color::parse_hex("#445566").expect("valid hex")),
        ..Theme::default()
    };
    assert_eq!(hex(t.active_border()), "#112233");
    assert_eq!(hex(t.inactive_border()), "#445566");
}

#[test]
fn parse_full_theme_overrides_every_field() {
    let raw = "\
background = \"#101010\"
foreground = \"#202020\"
comment = \"#303030\"
accent = \"#404040\"
yellow = \"#505050\"
blue = \"#606060\"
cyan = \"#707070\"
green = \"#808080\"
magenta = \"#909090\"
red = \"#A0A0A0\"
active_border = \"#B0B0B0\"
inactive_border = \"#C0C0C0\"
";
    let t = Theme::parse(raw).expect("valid full theme");
    assert_eq!(hex(t.background), "#101010");
    assert_eq!(hex(t.foreground), "#202020");
    assert_eq!(hex(t.comment), "#303030");
    assert_eq!(hex(t.accent), "#404040");
    assert_eq!(hex(t.yellow), "#505050");
    assert_eq!(hex(t.blue), "#606060");
    assert_eq!(hex(t.cyan), "#707070");
    assert_eq!(hex(t.green), "#808080");
    assert_eq!(hex(t.magenta), "#909090");
    assert_eq!(hex(t.red), "#A0A0A0");
    assert_eq!(hex(t.active_border()), "#B0B0B0");
    assert_eq!(hex(t.inactive_border()), "#C0C0C0");
}

#[test]
fn parse_partial_theme_falls_back_per_field() {
    let t = Theme::parse("red = \"#F07178\"\n").expect("valid partial theme");
    assert_eq!(hex(t.red), "#F07178");
    assert_eq!(hex(t.background), "#0A0E14");
    assert_eq!(hex(t.foreground), "#B3B1AD");
    assert_eq!(hex(t.comment), "#626A73");
    assert_eq!(hex(t.accent), "#FF8F40");
    assert_eq!(hex(t.yellow), "#E6B450");
    assert_eq!(hex(t.blue), "#39BAE6");
    assert_eq!(hex(t.cyan), "#95E6CB");
    assert_eq!(hex(t.green), "#AAD94C");
    assert_eq!(hex(t.magenta), "#D2A6FF");
    assert_eq!(hex(t.active_border()), "#FF8F40");
    assert_eq!(hex(t.inactive_border()), "#626A73");
}

#[test]
fn parse_unknown_key_is_rejected_and_named() {
    let msg = |raw: &str| match Theme::parse(raw) {
        Ok(t) => panic!("expected rejection for {raw:?}, got {t:?}"),
        Err(ThemeError::Parse(m)) => m,
        Err(other) => panic!("expected Parse error, got {other:?}"),
    };
    let err1 = msg("bogus = \"#123456\"\n");
    assert!(err1.contains("bogus"), "error should name the key: {err1}");
    let err2 = msg("red = \"#FF0000\"\nnope = \"#000000\"\n");
    assert!(err2.contains("nope"), "error should name the key: {err2}");
}

#[test]
fn parse_malformed_toml_fails() {
    let err = Theme::parse("not [valid toml").expect_err("malformed toml must fail");
    assert!(matches!(err, ThemeError::Parse(_)));
}

#[test]
fn parse_bad_hex_value_fails() {
    let err = Theme::parse("red = \"#ZZZZZZ\"\n").expect_err("bad hex must fail");
    assert!(matches!(err, ThemeError::Parse(_)));
}


#[test]
fn color_messages_say_what_was_expected() {
    assert_eq!(
        Color::parse_hex("red"),
        Err("invalid color \"red\": expected a #RRGGBB string".to_string())
    );
    assert_eq!(
        Color::parse_hex("#12345g"),
        Err("invalid color \"#12345g\": non-hex digit".to_string())
    );
}

#[test]
fn decoding_a_table_overrides_only_what_it_names() {
    let doc = Node::Table(vec![(
        "accent".to_string(),
        Node::Text("#010203".to_string()),
    )]);
    let t = Theme::decode(&doc).expect("valid table");
    assert_eq!(t.accent, Color { r: 1, g: 2, b: 3 });
    assert_eq!(
        t,
        Theme {
            accent: t.accent,
            ..Theme::default()
        }
    );
    assert_eq!(
        Theme::decode(&Node::Table(Vec::new())),
        Ok(Theme::default())
    );
}

#[test]
fn decoding_names_the_field_and_the_wrong_type() {
    let doc = Node::Table(vec![("red".to_string(), Node::Integer(7))]);
    assert_eq!(
        Theme::decode(&doc),
        Err("red: invalid type: integer, expected a string".to_string())
    );
    let doc = Node::Table(vec![("nope".to_string(), Node::Boolean(true))]);
    let message = Theme::decode(&doc).unwrap_err();
    assert!(message.starts_with("unknown field `nope`, expected one of `background`, `foreground`"));
}
