//! Startup decisions: the command line, where the configuration comes from,
//! and what happens when it or the theme cannot be loaded.
use vstd::prelude::*;
use crate::config::{Config, ConfigError};
use crate::config_file;
use crate::decode;
use crate::text;
use crate::theme;
use crate::theme::{Theme, ThemeError};

verus! {

/// Minimal CLI: `tessera [--config <path>] [--display <name>] [--version]`.
#[derive(Debug, Clone, PartialEq, Eq)]
pub struct CliArgs {
    /// Optional TOML config file path (`--config`).
    pub config_path: Option<String>,
    /// Optional X display name (`--display`); `None` means `$DISPLAY`.
    pub display: Option<String>,
    /// `--version`: print the version and exit before any other work.
    pub version: bool,
}

/// The contents of a [`CliArgs`].
pub struct CliView {
    pub config_path: Option<Seq<char>>,
    pub display: Option<Seq<char>>,
    pub version: bool,
}

impl View for CliArgs {
    type V = CliView;

    open spec fn view(&self) -> CliView {
        CliView {
            config_path: decode::optional_text(self.config_path),
            display: decode::optional_text(self.display),
            version: self.version,
        }
    }
}

/// What the rest of a command line means, after the values found so far. The
/// last value of a repeated flag counts; `--version` stops the parse.
pub open spec fn cli_rest(
    args: Seq<Seq<char>>,
    config_path: Option<Seq<char>>,
    display: Option<Seq<char>>,
) -> Result<CliView, Seq<char>>
    decreases args.len(),
{
    if args.len() == 0 {
        Ok(CliView { config_path, display, version: false })
    } else if args[0] == "--version"@ {
        Ok(CliView { config_path: None, display: None, version: true })
    } else if args[0] == "--config"@ {
        if args.len() == 1 {
            Err("--config needs a config file path"@)
        } else {
            cli_rest(args.skip(2), Some(args[1]), display)
        }
    } else if args[0] == "--display"@ {
        if args.len() == 1 {
            Err("--display needs a display name"@)
        } else {
            cli_rest(args.skip(2), config_path, Some(args[1]))
        }
    } else {
        Err("unknown argument '"@ + args[0] + "'"@)
    }
}

/// What a command line means.
pub open spec fn cli(args: Seq<Seq<char>>) -> Result<CliView, Seq<char>> {
    cli_rest(args, None, None)
}

impl CliArgs {
    /// Parses the CLI arguments (`--config <path>`, `--display <name>`).
    /// Unknown flags and missing values are rejected; `--version` wins over
    /// everything after it: once seen, parsing stops.
    pub fn parse(args: Vec<String>) -> (r: Result<CliArgs, String>)
        ensures
            cli(text::texts(args@)) == match r {
                Ok(c) => Ok::<CliView, Seq<char>>(c@),
                Err(m) => Err::<CliView, Seq<char>>(m@),
            },
    {
        let ghost all = text::texts(args@);
        let mut config_path: Option<String> = None;
        let mut display: Option<String> = None;
        let mut i: usize = 0;
        assert(all.skip(0) =~= all);
        while i < args.len()
            invariant
                i <= args@.len(),
                all == text::texts(args@),
                all.len() == args@.len(),
                cli(all) == cli_rest(all.skip(i as int), decode::optional_text(config_path), decode::optional_text(display)),
            decreases args@.len() - i,
        {
            let ghost rest = all.skip(i as int);
            assert(rest[0] == args@[i as int]@);
            let arg = args[i].as_str();
            if text::same_text(arg, "--version") {
                return Ok(CliArgs { config_path: None, display: None, version: true });
            }
            let is_config = text::same_text(arg, "--config");
            let is_display = text::same_text(arg, "--display");
            if !is_config && !is_display {
                let mut message = text::joined("unknown argument '", arg);
                message.append("'");
                return Err(message);
            }
            if i + 1 == args.len() {
                return Err(
                    if is_config {
                        "--config needs a config file path".to_owned()
                    } else {
                        "--display needs a display name".to_owned()
                    },
                );
            }
            let value = args[i + 1].clone();
            assert(rest[1] == value@);
            assert(rest.skip(2) =~= all.skip(i + 2));
            if is_config {
                config_path = Some(value);
            } else {
                display = Some(value);
            }
            i = i + 2;
        }
        Ok(CliArgs { config_path, display, version: false })
    }
}

proof fn lemma_version_stops(
    args: Seq<Seq<char>>,
    k: int,
    config_path: Option<Seq<char>>,
    display: Option<Seq<char>>,
)
    requires
        0 <= k < args.len(),
        args[k] == "--version"@,
        cli_rest(args.take(k), config_path, display) is Ok,
    ensures
        cli_rest(args, config_path, display) == Ok::<CliView, Seq<char>>(
            CliView { config_path: None, display: None, version: true },
        ),
    decreases k,
{
    let front = args.take(k);
    if k > 0 {
        assert(front[0] == args[0]);
        if args[0] != "--version"@ {
            assert(front.len() >= 2);
            assert(front[1] == args[1]);
            assert(front.skip(2) =~= args.skip(2).take(k - 2));
            assert(args.skip(2)[k - 2] == args[k]);
            if args[0] == "--config"@ {
                lemma_version_stops(args.skip(2), k - 2, Some(args[1]), display);
            } else {
                lemma_version_stops(args.skip(2), k - 2, config_path, Some(args[1]));
            }
        }
    }
}

/// `--version` after a well-formed beginning decides, whatever follows it.
pub proof fn law_version_wins(args: Seq<Seq<char>>, k: int)
    requires
        0 <= k < args.len(),
        args[k] == "--version"@,
        cli(args.take(k)) is Ok,
    ensures
        cli(args) == Ok::<CliView, Seq<char>>(
            CliView { config_path: None, display: None, version: true },
        ),
{
    lemma_version_stops(args, k, None, None);
}

/// The contents of an optional borrowed text.
pub open spec fn str_of(s: Option<&str>) -> Option<Seq<char>> {
    match s {
        Some(s) => Some(s@),
        None => None,
    }
}

/// `below` as a path under `base`.
pub open spec fn under(base: Seq<char>, below: Seq<char>) -> Seq<char> {
    if base.last() == '/' {
        base + below
    } else {
        base + "/"@ + below
    }
}

/// The auto-detected config path: an absolute `$XDG_CONFIG_HOME` wins, else
/// `$HOME/.config`, else there is none.
pub open spec fn detected(xdg: Option<Seq<char>>, home: Option<Seq<char>>) -> Option<Seq<char>> {
    match xdg {
        Some(x) if x.len() > 0 && x[0] == '/' => Some(under(x, "Tessera/tessera.toml"@)),
        _ => match home {
            Some(h) if h.len() > 0 => Some(under(h, ".config/Tessera/tessera.toml"@)),
            _ => None,
        },
    }
}

fn path_under(base: &str, below: &str) -> (r: String)
    requires
        base@.len() > 0,
    ensures
        r@ == under(base@, below@),
{
    let n: usize = base.unicode_len();
    if base.get_char(n - 1) == '/' {
        text::joined(base, below)
    } else {
        text::joined(base, "/").concat(below)
    }
}

/// Resolves the auto-detected config path: an absolute `$XDG_CONFIG_HOME`
/// wins; an empty, relative or absent one falls back to `$HOME/.config`; with
/// no usable `$HOME` there is no candidate at all.
pub fn auto_config_path(xdg: Option<&str>, home: Option<&str>) -> (r: Option<String>)
    ensures
        decode::optional_text(r) == detected(str_of(xdg), str_of(home)),
{
    if let Some(x) = xdg {
        if x.unicode_len() > 0 && x.get_char(0) == '/' {
            return Some(path_under(x, "Tessera/tessera.toml"));
        }
    }
    if let Some(h) = home {
        if h.unicode_len() > 0 {
            return Some(path_under(h, ".config/Tessera/tessera.toml"));
        }
    }
    None
}

/// Where the configuration comes from.
pub enum ConfigSource {
    /// `--config <path>`: strict.
    Explicit(String),
    /// The auto-detected path: lenient, and created on first run.
    Auto(String),
    /// Nowhere: there is no path to look at.
    Nowhere,
}

/// The contents of a [`ConfigSource`].
pub enum SourceView {
    Explicit(Seq<char>),
    Auto(Seq<char>),
    Nowhere,
}

impl View for ConfigSource {
    type V = SourceView;

    open spec fn view(&self) -> SourceView {
        match self {
            ConfigSource::Explicit(p) => SourceView::Explicit(p@),
            ConfigSource::Auto(p) => SourceView::Auto(p@),
            ConfigSource::Nowhere => SourceView::Nowhere,
        }
    }
}

/// Picks the source: an explicit path wins over the auto-detected one.
pub fn config_source(args: &CliArgs, xdg: Option<&str>, home: Option<&str>) -> (r: ConfigSource)
    ensures
        r@ == match args@.config_path {
            Some(path) => SourceView::Explicit(path),
            None => match detected(str_of(xdg), str_of(home)) {
                Some(path) => SourceView::Auto(path),
                None => SourceView::Nowhere,
            },
        },
{
    match &args.config_path {
        Some(path) => ConfigSource::Explicit(path.clone()),
        None => match auto_config_path(xdg, home) {
            Some(path) => ConfigSource::Auto(path),
            None => ConfigSource::Nowhere,
        },
    }
}

/// What reading a file gave.
pub enum FileRead {
    Text(String),
    Missing(String),
    Unreadable(String),
}

/// What to do about the configuration.
pub enum ConfigOutcome {
    /// Run with this one, after logging the warning.
    Use(Config, Option<String>),
    /// First run: write the template to the path, then load that.
    Create,
    /// Stop with this message.
    Abort(String),
}

/// How an error of a file prints.
pub open spec fn printed_error(variant: Seq<char>, message: Seq<char>) -> Seq<char> {
    variant + "("@ + text::debug_quoted(message) + ")"@
}

/// The message that aborts startup.
pub open spec fn abort_message(variant: Seq<char>, message: Seq<char>) -> Seq<char> {
    "cannot load config: "@ + printed_error(variant, message)
}

/// The warning for an auto-detected file that is not used.
pub open spec fn default_warning(verb: Seq<char>, path: Seq<char>, message: Seq<char>) -> Seq<
    char,
> {
    "tessera: warning: cannot "@ + verb + " "@ + text::debug_quoted(path) + " ("@ + message
        + "); using defaults"@
}

/// The warning where there is no path to look at.
pub open spec fn homeless_warning() -> Seq<char> {
    "tessera: warning: neither $XDG_CONFIG_HOME nor $HOME gives a config path; using defaults"@
}

/// What the library does about the configuration: an explicit file must be
/// there and be valid; an auto-detected one is created where it is missing,
/// and gives way to the defaults where it is broken.
pub open spec fn settled(source: SourceView, read: FileRead, outcome: ConfigOutcome) -> bool {
    match source {
        SourceView::Nowhere => outcome matches ConfigOutcome::Use(c, Some(w)) && c@
            == config_file::config_defaults() && w@ == homeless_warning(),
        SourceView::Explicit(_) => match read {
            FileRead::Text(raw) => match config_file::config_parsed(raw@) {
                Ok(v) => outcome matches ConfigOutcome::Use(c, None) && c@ == v,
                Err(m) => outcome matches ConfigOutcome::Abort(a) && a@ == abort_message(
                    "Parse"@,
                    m,
                ),
            },
            FileRead::Missing(m) => outcome matches ConfigOutcome::Abort(a) && a@
                == abort_message("Io"@, m@),
            FileRead::Unreadable(m) => outcome matches ConfigOutcome::Abort(a) && a@
                == abort_message("Io"@, m@),
        },
        SourceView::Auto(path) => match read {
            FileRead::Text(raw) => match config_file::config_parsed(raw@) {
                Ok(v) => outcome matches ConfigOutcome::Use(c, None) && c@ == v,
                Err(m) => outcome matches ConfigOutcome::Use(c, Some(w)) && c@
                    == config_file::config_defaults() && w@ == default_warning("parse"@, path, m),
            },
            FileRead::Missing(_) => outcome is Create,
            FileRead::Unreadable(m) => outcome matches ConfigOutcome::Use(c, Some(w)) && c@
                == config_file::config_defaults() && w@ == default_warning("read"@, path, m@),
        },
    }
}

fn printed_error_text(variant: &str, message: &str) -> (r: String)
    ensures
        r@ == printed_error(variant@, message@),
{
    let mut out = text::joined(variant, "(");
    out.append(text::quoted(message).as_str());
    out.append(")");
    out
}

fn abort_text(variant: &str, message: &str) -> (r: String)
    ensures
        r@ == abort_message(variant@, message@),
{
    text::joined("cannot load config: ", printed_error_text(variant, message).as_str())
}

fn default_warning_text(verb: &str, path: &str, message: &str) -> (r: String)
    ensures
        r@ == default_warning(verb@, path@, message@),
{
    let mut out = text::joined("tessera: warning: cannot ", verb);
    out.append(" ");
    out.append(text::quoted(path).as_str());
    out.append(" (");
    out.append(message);
    out.append("); using defaults");
    out
}

fn default_config() -> (r: Config)
    ensures
        r@ == config_file::config_defaults(),
{
    let c = Config::default();
    proof {
        config_file::law_defaults_are_one_value(c);
    }
    c
}

/// Settles the configuration from what reading its file gave.
pub fn load_config(source: &ConfigSource, read: &FileRead) -> (r: ConfigOutcome)
    ensures
        settled(source@, *read, r),
{
    match source {
        ConfigSource::Nowhere => ConfigOutcome::Use(
            default_config(),
            Some(
                "tessera: warning: neither $XDG_CONFIG_HOME nor $HOME gives a config path; using defaults".to_owned(),
            ),
        ),
        ConfigSource::Explicit(_) => match read {
            FileRead::Text(raw) => match Config::parse(raw.as_str()) {
                Ok(config) => ConfigOutcome::Use(config, None),
                Err(ConfigError::Parse(m)) => ConfigOutcome::Abort(
                    abort_text("Parse", m.as_str()),
                ),
                Err(ConfigError::Io(m)) => ConfigOutcome::Abort(abort_text("Io", m.as_str())),
            },
            FileRead::Missing(m) => ConfigOutcome::Abort(abort_text("Io", m.as_str())),
            FileRead::Unreadable(m) => ConfigOutcome::Abort(abort_text("Io", m.as_str())),
        },
        ConfigSource::Auto(path) => match read {
            FileRead::Text(raw) => match Config::parse(raw.as_str()) {
                Ok(config) => ConfigOutcome::Use(config, None),
                Err(ConfigError::Parse(m)) => ConfigOutcome::Use(
                    default_config(),
                    Some(default_warning_text("parse", path.as_str(), m.as_str())),
                ),
                Err(ConfigError::Io(m)) => ConfigOutcome::Use(
                    default_config(),
                    Some(default_warning_text("read", path.as_str(), m.as_str())),
                ),
            },
            FileRead::Missing(_) => ConfigOutcome::Create,
            FileRead::Unreadable(m) => ConfigOutcome::Use(
                default_config(),
                Some(default_warning_text("read", path.as_str(), m.as_str())),
            ),
        },
    }
}

/// Startup aborts only over an explicit file, and a file is created only
/// where an auto-detected one is missing.
pub proof fn law_only_explicit_files_abort(source: SourceView, read: FileRead, outcome: ConfigOutcome)
    requires
        settled(source, read, outcome),
    ensures
        outcome is Abort ==> source is Explicit,
        outcome is Create <==> source is Auto && read is Missing,
{
}

/// The warning for a theme file that is not used.
pub open spec fn theme_warning(path: Seq<char>, error: Seq<char>) -> Seq<char> {
    "tessera: warning: cannot load theme "@ + text::debug_quoted(path) + " ("@ + error
        + "); falling back to the embedded ayu_dark theme"@
}

fn theme_warning_text(path: &str, error: &str) -> (r: String)
    ensures
        r@ == theme_warning(path@, error@),
{
    let mut out = text::joined(
        "tessera: warning: cannot load theme ",
        text::quoted(path).as_str(),
    );
    out.append(" (");
    out.append(error);
    out.append("); falling back to the embedded ayu_dark theme");
    out
}

/// Resolves the startup theme: without a path the embedded ayu_dark palette;
/// with one, the file's values. A missing, unreadable or broken file never
/// aborts startup: it gives a warning and the embedded palette.
pub fn resolve_theme(config: &Config, read: &FileRead) -> (r: (Theme, Option<String>))
    ensures
        match config.general.theme {
            None => r.0 == theme::ayu_dark() && r.1 is None,
            Some(path) => match *read {
                FileRead::Text(raw) => match theme::theme_parsed(raw@) {
                    Ok(t) => r.0 == t && r.1 is None,
                    Err(m) => r.0 == theme::ayu_dark() && decode::optional_text(r.1) == Some(
                        theme_warning(path@, printed_error("Parse"@, m)),
                    ),
                },
                FileRead::Missing(m) => r.0 == theme::ayu_dark() && decode::optional_text(r.1) == Some(
                    theme_warning(path@, printed_error("Io"@, m@)),
                ),
                FileRead::Unreadable(m) => r.0 == theme::ayu_dark() && decode::optional_text(r.1) == Some(
                    theme_warning(path@, printed_error("Io"@, m@)),
                ),
            },
        },
{
    let path = match &config.general.theme {
        None => return (Theme::default(), None),
        Some(path) => path,
    };
    let error = match read {
        FileRead::Text(raw) => match Theme::parse(raw.as_str()) {
            Ok(theme) => return (theme, None),
            Err(ThemeError::Parse(m)) => printed_error_text("Parse", m.as_str()),
            Err(ThemeError::Io(m)) => printed_error_text("Io", m.as_str()),
        },
        FileRead::Missing(m) => printed_error_text("Io", m.as_str()),
        FileRead::Unreadable(m) => printed_error_text("Io", m.as_str()),
    };
    (Theme::default(), Some(theme_warning_text(path.as_str(), error.as_str())))
}

/// Default configuration written to the auto-detected path on first run:
/// every value is a default one.
pub const DEFAULT_CONFIG_TEMPLATE: &'static str = "# Tessera default configuration — created on first run. Edit and restart (or SIGHUP) to apply.
# mods = X11 modifier mask: Shift=1, Control=4, Mod1/Alt=8, Mod4/Super=64. key = keysym in decimal
# (Return=65293, space=32, j=106, k=107, q=113, 1..9=49..57, 0=48).

[general]
border_width = 2
gaps = 3
terminal = \"alacritty\"
launcher = [\"rofi\", \"-show\", \"drun\"]

[keybindings.terminal]     # Super+Enter: open a terminal
mods = 64
key = 65293

[keybindings.focus_next]   # Super+J
mods = 64
key = 106

[keybindings.focus_prev]   # Super+K
mods = 64
key = 107

[keybindings.close]        # Super+Q
mods = 64
key = 113

[keybindings.toggle_layout]  # Super+Space
mods = 64
key = 32

[keybindings.launcher]     # Ctrl+Space: run [general] launcher
mods = 4
key = 32

# Workspace 1..9, Super+0 = workspace 10. To rebind off Super (e.g. in a VM whose
# host captures Super — see README \"Super in VM guests\"): change the mods of a binding to 4 (Control).
[[keybindings.workspace]]  # workspace-1 (Super+1)
mods = 64
key = 49
[[keybindings.workspace]]  # workspace-2 (Super+2)
mods = 64
key = 50
[[keybindings.workspace]]  # workspace-3 (Super+3)
mods = 64
key = 51
[[keybindings.workspace]]  # workspace-4 (Super+4)
mods = 64
key = 52
[[keybindings.workspace]]  # workspace-5 (Super+5)
mods = 64
key = 53
[[keybindings.workspace]]  # workspace-6 (Super+6)
mods = 64
key = 54
[[keybindings.workspace]]  # workspace-7 (Super+7)
mods = 64
key = 55
[[keybindings.workspace]]  # workspace-8 (Super+8)
mods = 64
key = 56
[[keybindings.workspace]]  # workspace-9 (Super+9)
mods = 64
key = 57
[[keybindings.workspace]]  # workspace-10 (Super+0)
mods = 64
key = 48
";

} // verus!
