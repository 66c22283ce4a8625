use tessera::startup::{
    auto_config_path, config_source, load_config, resolve_theme, ConfigOutcome, ConfigSource,
    FileRead, DEFAULT_CONFIG_TEMPLATE,
};
use tessera::{CliArgs, Color, Config, Theme};

fn no_file() -> FileRead {
    FileRead::Missing("No such file or directory".to_string())
}

#[test]
fn parse_accepts_no_args_and_full_args() {
    assert_eq!(
        CliArgs::parse(Vec::new()).unwrap(),
        CliArgs {
            config_path: None,
            display: None,
            version: false,
        }
    );
    assert_eq!(
        CliArgs::parse(vec![
            "--config".to_string(),
            "/tmp/tessera.toml".to_string(),
            "--display".to_string(),
            ":9".to_string(),
        ])
        .unwrap(),
        CliArgs {
            config_path: Some("/tmp/tessera.toml".into()),
            display: Some(":9".into()),
            version: false,
        }
    );
}

#[test]
fn parse_version_short_circuits() {
    for args in [
        vec!["--version".to_string()],
        vec!["--version".to_string(), "--config".to_string()],
        vec!["--version".to_string(), "--bogus".to_string()],
    ] {
        let parsed = CliArgs::parse(args).expect("--version must short-circuit");
        assert!(
            parsed.version,
            "--version must set version: true (got {parsed:?})"
        );
        assert_eq!(parsed.config_path, None);
        assert_eq!(parsed.display, None);
    }
    assert!(
        CliArgs::parse(vec!["--bogus".to_string()]).is_err(),
        "an unknown flag without a preceding --version must still error"
    );
}

#[test]
fn parse_rejects_unknown_flags_and_missing_values() {
    assert!(CliArgs::parse(vec!["--bogus".to_string()]).is_err());
    assert!(CliArgs::parse(vec!["--config".to_string()]).is_err());
}

#[test]
fn parse_errors_say_what_is_wrong() {
    let parse = |args: &[&str]| CliArgs::parse(args.iter().map(|a| a.to_string()).collect());
    assert_eq!(
        parse(&["--bogus"]),
        Err("unknown argument '--bogus'".to_string())
    );
    assert_eq!(
        parse(&["--config"]),
        Err("--config needs a config file path".to_string())
    );
    assert_eq!(
        parse(&["--config", "a", "--display"]),
        Err("--display needs a display name".to_string())
    );
    let last = parse(&["--display", ":1", "--display", ":2"]).unwrap();
    assert_eq!(last.display.as_deref(), Some(":2"));
    let version = parse(&["--config", "a", "--version", "--bogus"]).unwrap();
    assert!(version.version);
    assert_eq!(version.config_path, None);
}

#[test]
fn the_auto_config_path_prefers_an_absolute_xdg() {
    assert_eq!(
        auto_config_path(Some("/x/cfg"), Some("/home/u")).as_deref(),
        Some("/x/cfg/Tessera/tessera.toml")
    );
    assert_eq!(
        auto_config_path(Some("/x/cfg/"), None).as_deref(),
        Some("/x/cfg/Tessera/tessera.toml")
    );
    for bad in [None, Some(""), Some("relative/cfg")] {
        assert_eq!(
            auto_config_path(bad, Some("/home/u")).as_deref(),
            Some("/home/u/.config/Tessera/tessera.toml")
        );
        assert_eq!(auto_config_path(bad, None), None);
        assert_eq!(auto_config_path(bad, Some("")), None);
    }
}

#[test]
fn an_explicit_config_path_wins() {
    let explicit = CliArgs {
        config_path: Some("/etc/t.toml".to_string()),
        display: None,
        version: false,
    };
    assert!(matches!(
        config_source(&explicit, Some("/x"), Some("/h")),
        ConfigSource::Explicit(p) if p == "/etc/t.toml"
    ));
    let auto = CliArgs {
        config_path: None,
        ..explicit
    };
    assert!(matches!(
        config_source(&auto, Some("/x"), Some("/h")),
        ConfigSource::Auto(p) if p == "/x/Tessera/tessera.toml"
    ));
    assert!(matches!(
        config_source(&auto, None, None),
        ConfigSource::Nowhere
    ));
}

#[test]
fn an_explicit_file_is_strict() {
    let source = ConfigSource::Explicit("/etc/t.toml".to_string());
    let ok = FileRead::Text("[general]\nborder_width = 7\n".to_string());
    match load_config(&source, &ok) {
        ConfigOutcome::Use(c, None) => assert_eq!(c.general.border_width, 7),
        _ => panic!("a valid file is used"),
    }
    let bad = FileRead::Text("[general]\nbogus = 1\n".to_string());
    match load_config(&source, &bad) {
        ConfigOutcome::Abort(m) => {
            assert!(m.starts_with("cannot load config: Parse(\"general: unknown field `bogus`"))
        }
        _ => panic!("a malformed explicit file aborts"),
    }
    match load_config(&source, &no_file()) {
        ConfigOutcome::Abort(m) => {
            assert_eq!(m, "cannot load config: Io(\"No such file or directory\")")
        }
        _ => panic!("a missing explicit file aborts"),
    }
    assert!(matches!(
        load_config(&source, &FileRead::Unreadable("denied".to_string())),
        ConfigOutcome::Abort(_)
    ));
}

#[test]
fn an_auto_detected_file_never_aborts() {
    let source = ConfigSource::Auto("/h/t.toml".to_string());
    assert!(matches!(
        load_config(&source, &no_file()),
        ConfigOutcome::Create
    ));
    match load_config(&source, &FileRead::Text("[nope]\n".to_string())) {
        ConfigOutcome::Use(c, Some(w)) => {
            assert_eq!(c, Config::default());
            assert!(w.starts_with("tessera: warning: cannot parse \"/h/t.toml\" ("));
            assert!(w.ends_with("); using defaults"));
        }
        _ => panic!("a malformed file gives way to the defaults"),
    }
    match load_config(&source, &FileRead::Unreadable("denied".to_string())) {
        ConfigOutcome::Use(c, Some(w)) => {
            assert_eq!(c, Config::default());
            assert_eq!(
                w,
                "tessera: warning: cannot read \"/h/t.toml\" (denied); using defaults"
            );
        }
        _ => panic!("an unreadable file gives way to the defaults"),
    }
    match load_config(&ConfigSource::Nowhere, &no_file()) {
        ConfigOutcome::Use(c, Some(w)) => {
            assert_eq!(c, Config::default());
            assert!(w.contains("using defaults"));
        }
        _ => panic!("without a path the defaults are used"),
    }
}

#[test]
fn the_template_is_the_default_config() {
    assert_eq!(
        Config::parse(DEFAULT_CONFIG_TEMPLATE),
        Ok(Config::default())
    );
}

#[test]
fn resolve_theme_uses_embedded_ayu_dark_without_a_theme_path() {
    let cfg = Config::default();
    assert_eq!(cfg.general.theme, None);
    let (theme, warning) = resolve_theme(&cfg, &no_file());
    assert_eq!(theme, Theme::default());
    assert_eq!(warning, None);
    assert_eq!(
        (
            theme.active_border().r,
            theme.active_border().g,
            theme.active_border().b
        ),
        (0xFF, 0x8F, 0x40),
        "focused border must derive from the ayu accent"
    );
    assert_eq!(
        (
            theme.inactive_border().r,
            theme.inactive_border().g,
            theme.inactive_border().b
        ),
        (0x62, 0x6A, 0x73),
        "unfocused border must derive from the ayu comment"
    );
}

#[test]
fn resolve_theme_loads_the_file_at_the_configured_path() {
    let mut cfg = Config::default();
    cfg.general.theme = Some("/tmp/theme.toml".to_string());
    let (theme, warning) =
        resolve_theme(&cfg, &FileRead::Text("red = \"#F07178\"\n".to_string()));
    assert_eq!(warning, None);
    assert_eq!(
        theme.red,
        Color {
            r: 0xF0,
            g: 0x71,
            b: 0x78
        },
        "the file's red must override the ayu_dark default"
    );
    assert_eq!(
        theme.background,
        Theme::default().background,
        "an unset field must stay on the ayu_dark default"
    );
    assert_eq!(
        theme.active_border(),
        Theme::default().active_border(),
        "an unset border must derive from the ayu accent"
    );
}

#[test]
fn resolve_theme_falls_back_to_ayu_dark_on_a_missing_theme_file() {
    let mut cfg = Config::default();
    cfg.general.theme = Some("/nonexistent/tessera-theme-gone.toml".to_string());
    let (theme, warning) = resolve_theme(&cfg, &no_file());
    assert_eq!(theme, Theme::default());
    assert_eq!(
        (theme.red.r, theme.red.g, theme.red.b),
        (0xF2, 0x53, 0x58),
        "the fallback must be the full ayu_dark palette"
    );
    assert_eq!(
        warning.as_deref(),
        Some("tessera: warning: cannot load theme \"/nonexistent/tessera-theme-gone.toml\" (Io(\"No such file or directory\")); falling back to the embedded ayu_dark theme")
    );
}

#[test]
fn resolve_theme_falls_back_to_ayu_dark_on_an_unparseable_theme_file() {
    let mut cfg = Config::default();
    cfg.general.theme = Some("/tmp/theme.toml".to_string());
    let (theme, warning) = resolve_theme(&cfg, &FileRead::Text("not [valid toml".to_string()));
    assert_eq!(theme, Theme::default());
    assert!(warning.is_some());
    assert_eq!(
        (
            theme.active_border().r,
            theme.active_border().g,
            theme.active_border().b
        ),
        (0xFF, 0x8F, 0x40),
        "the fallback must keep the ayu derived borders"
    );
}

#[test]
fn load_config_falls_back_to_defaults_without_a_path() {
    match load_config(&ConfigSource::Nowhere, &no_file()) {
        ConfigOutcome::Use(cfg, _) => {
            assert_eq!(cfg.general.border_width, 2);
            assert_eq!(cfg.general.terminal, "alacritty");
        }
        _ => panic!("without a path the defaults are used"),
    }
}

#[test]
fn load_config_aborts_on_a_missing_file() {
    let source = ConfigSource::Explicit("/nonexistent/tessera-does-not-exist.toml".to_string());
    match load_config(&source, &no_file()) {
        ConfigOutcome::Abort(err) => {
            assert!(err.contains("config"), "expected a config error, got {err}")
        }
        _ => panic!("a missing explicit file aborts"),
    }
}

#[test]
fn load_config_aborts_on_a_malformed_file() {
    let source = ConfigSource::Explicit("tessera-config-bad.toml".to_string());
    let read = FileRead::Text("general = { border_width = ".to_string());
    match load_config(&source, &read) {
        ConfigOutcome::Abort(err) => {
            assert!(err.contains("config"), "expected a config error, got {err}")
        }
        _ => panic!("a malformed explicit file aborts"),
    }
}
