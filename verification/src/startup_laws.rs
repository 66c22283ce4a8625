//! What a command line, the environment and the files found at startup lead
//! to.
use vstd::prelude::*;
use crate::config_file;
use crate::startup;
use crate::startup::{CliArgs, CliView, ConfigOutcome, ConfigSource, FileRead, SourceView};
use crate::text;

verus! {

proof fn lemma_flag_names()
    ensures
        "--version"@.len() == 9,
        "--config"@.len() == 8,
        "--display"@.len() == 9,
        "--version"@[2] == 'v',
        "--display"@[2] == 'd',
{
    reveal_strlit("--version");
    reveal_strlit("--config");
    reveal_strlit("--display");
}

proof fn lemma_cli_goes_on(
    args: Seq<Seq<char>>,
    tail: Seq<Seq<char>>,
    config_path: Option<Seq<char>>,
    display: Option<Seq<char>>,
)
    requires
        startup::cli_rest(args, config_path, display) matches Ok(v) && !v.version,
    ensures
        startup::cli_rest(args + tail, config_path, display) == startup::cli_rest(
            tail,
            startup::cli_rest(args, config_path, display)->Ok_0.config_path,
            startup::cli_rest(args, config_path, display)->Ok_0.display,
        ),
    decreases args.len(),
{
    lemma_flag_names();
    let all = args + tail;
    if args.len() == 0 {
        assert(all =~= tail);
    } else {
        assert(all[0] == args[0]);
        assert(args.len() >= 2);
        assert(all[1] == args[1]);
        assert(all.skip(2) =~= args.skip(2) + tail);
        if args[0] == "--config"@ {
            lemma_cli_goes_on(args.skip(2), tail, Some(args[1]), display);
        } else {
            lemma_cli_goes_on(args.skip(2), tail, config_path, Some(args[1]));
        }
    }
}

/// Without arguments nothing is set. `--config` sets the configuration path
/// and `--display` the display, to the argument that follows; the last one
/// counts. A flag without its value is an error, and so is any other argument.
pub proof fn law_flags_set_their_own_value(
    args: Seq<Seq<char>>,
    v: CliView,
    value: Seq<char>,
    other: Seq<char>,
)
    requires
        startup::cli(args) == Ok::<CliView, Seq<char>>(v),
        !v.version,
        other != "--version"@,
        other != "--config"@,
        other != "--display"@,
    ensures
        startup::cli(Seq::empty()) == Ok::<CliView, Seq<char>>(
            CliView { config_path: None, display: None, version: false },
        ),
        startup::cli(args + seq!["--config"@, value]) == Ok::<CliView, Seq<char>>(
            CliView { config_path: Some(value), ..v },
        ),
        startup::cli(args + seq!["--display"@, value]) == Ok::<CliView, Seq<char>>(
            CliView { display: Some(value), ..v },
        ),
        startup::cli(args + seq!["--config"@]) is Err,
        startup::cli(args + seq!["--display"@]) is Err,
        startup::cli(args + seq![other]) is Err,
{
    lemma_flag_names();
    reveal_with_fuel(startup::cli_rest, 3);
    lemma_cli_goes_on(args, seq!["--config"@, value], None, None);
    lemma_cli_goes_on(args, seq!["--display"@, value], None, None);
    lemma_cli_goes_on(args, seq!["--config"@], None, None);
    lemma_cli_goes_on(args, seq!["--display"@], None, None);
    lemma_cli_goes_on(args, seq![other], None, None);
    assert(seq!["--config"@, value].skip(2) =~= Seq::empty());
    assert(seq!["--display"@, value].skip(2) =~= Seq::empty());
}

/// `--version` by itself asks for the version and for nothing else.
pub proof fn law_version_by_itself(rest: Seq<Seq<char>>)
    ensures
        startup::cli(seq!["--version"@] + rest) == Ok::<CliView, Seq<char>>(
            CliView { config_path: None, display: None, version: true },
        ),
{
    assert((seq!["--version"@] + rest)[0] == "--version"@);
}

/// The contents of parsed arguments are their fields, each under its own name.
pub proof fn law_cli_contents_are_its_fields(args: CliArgs)
    ensures
        args@.version == args.version,
        match args.config_path {
            Some(path) => args@.config_path == Some(path@),
            None => args@.config_path is None,
        },
        match args.display {
            Some(name) => args@.display == Some(name@),
            None => args@.display is None,
        },
{
}

/// The contents of a source are its path.
pub proof fn law_source_contents(source: ConfigSource)
    ensures
        match source {
            ConfigSource::Explicit(path) => source@ == SourceView::Explicit(path@),
            ConfigSource::Auto(path) => source@ == SourceView::Auto(path@),
            ConfigSource::Nowhere => source@ == SourceView::Nowhere,
        },
{
}

/// The configuration is looked for in `Tessera/tessera.toml` under
/// `$XDG_CONFIG_HOME` where that is an absolute path, else under `.config` in
/// a `$HOME` that is not empty, else nowhere. A slash is put between the parts
/// where there is none yet.
pub proof fn law_config_is_looked_for(xdg: Seq<char>, home: Seq<char>, other: Option<Seq<char>>)
    requires
        xdg.len() > 0,
        xdg[0] == '/',
        home.len() > 0,
        other matches Some(o) ==> o.len() == 0 || o[0] != '/',
    ensures
        xdg.last() != '/' ==> startup::detected(Some(xdg), Some(home)) == Some(
            xdg + "/Tessera/tessera.toml"@,
        ),
        xdg.last() == '/' ==> startup::detected(Some(xdg), Some(home)) == Some(
            xdg + "Tessera/tessera.toml"@,
        ),
        startup::detected(Some(xdg), None) == startup::detected(Some(xdg), Some(home)),
        home.last() != '/' ==> startup::detected(other, Some(home)) == Some(
            home + "/.config/Tessera/tessera.toml"@,
        ),
        home.last() == '/' ==> startup::detected(other, Some(home)) == Some(
            home + ".config/Tessera/tessera.toml"@,
        ),
        startup::detected(other, None) is None,
        startup::detected(other, Some(Seq::empty())) is None,
{
    reveal_strlit("/");
    reveal_strlit("Tessera/tessera.toml");
    reveal_strlit("/Tessera/tessera.toml");
    reveal_strlit(".config/Tessera/tessera.toml");
    reveal_strlit("/.config/Tessera/tessera.toml");
    assert("/"@ + "Tessera/tessera.toml"@ =~= "/Tessera/tessera.toml"@);
    assert("/"@ + ".config/Tessera/tessera.toml"@ =~= "/.config/Tessera/tessera.toml"@);
    assert(xdg + "/"@ + "Tessera/tessera.toml"@ =~= xdg + "/Tessera/tessera.toml"@);
    assert(home + "/"@ + ".config/Tessera/tessera.toml"@ =~= home
        + "/.config/Tessera/tessera.toml"@);
}

/// A valid file is used as it is, wherever it was found. A broken or
/// unreadable one stops startup where it was asked for by name, and gives way
/// to the defaults with a warning where it was only looked for. A missing one
/// stops startup or is created, in the same way. With nowhere to look the
/// defaults are used, with a warning.
pub proof fn law_broken_files_stop_or_give_way(
    source: SourceView,
    read: FileRead,
    outcome: ConfigOutcome,
)
    requires
        startup::settled(source, read, outcome),
    ensures
        ({
            let parsed = config_file::config_parsed(read->Text_0@);
            let valid = read is Text && parsed is Ok;
            let defaults = outcome matches ConfigOutcome::Use(c, Some(_)) && c@
                == config_file::config_defaults();
            &&& !(source is Nowhere) && valid ==> (outcome matches ConfigOutcome::Use(c, None) && c@
                == parsed->Ok_0)
            &&& source is Explicit && !valid ==> outcome is Abort
            &&& source is Auto && read is Missing ==> outcome is Create
            &&& source is Auto && !valid && !(read is Missing) ==> defaults
            &&& source is Nowhere ==> defaults
        }),
{
}

/// What stops startup says that the configuration cannot be loaded, and why; a
/// warning says which file is not used, and why.
pub proof fn law_startup_messages_say_why(
    path: Seq<char>,
    read: FileRead,
    stopped: ConfigOutcome,
    warned: ConfigOutcome,
    nowhere: ConfigOutcome,
)
    requires
        startup::settled(SourceView::Explicit(path), read, stopped),
        startup::settled(SourceView::Auto(path), read, warned),
        startup::settled(SourceView::Nowhere, read, nowhere),
    ensures
        ({
            let told = "cannot load config: "@;
            let quoted = text::debug_quoted(path);
            match read {
                FileRead::Text(raw) => config_file::config_parsed(raw@) matches Err(m) ==> {
                    &&& stopped matches ConfigOutcome::Abort(a) && a@ == told + ("Parse"@ + "("@
                        + text::debug_quoted(m) + ")"@)
                    &&& warned matches ConfigOutcome::Use(_, Some(w)) && w@
                        == "tessera: warning: cannot "@ + "parse"@ + " "@ + quoted + " ("@ + m
                        + "); using defaults"@
                },
                FileRead::Missing(m) => stopped matches ConfigOutcome::Abort(a) && a@ == told + (
                "Io"@ + "("@ + text::debug_quoted(m@) + ")"@),
                FileRead::Unreadable(m) => {
                    &&& stopped matches ConfigOutcome::Abort(a) && a@ == told + ("Io"@ + "("@
                        + text::debug_quoted(m@) + ")"@)
                    &&& warned matches ConfigOutcome::Use(_, Some(w)) && w@
                        == "tessera: warning: cannot "@ + "read"@ + " "@ + quoted + " ("@ + m@
                        + "); using defaults"@
                },
            }
        }),
        nowhere matches ConfigOutcome::Use(_, Some(w)) && w@
            == "tessera: warning: neither $XDG_CONFIG_HOME nor $HOME gives a config path; using defaults"@,
{
}

/// The warning for a theme that is not used says which file and why, and what
/// is used instead.
pub proof fn law_theme_warning_says_why(path: Seq<char>, variant: Seq<char>, m: Seq<char>)
    ensures
        startup::theme_warning(path, startup::printed_error(variant, m))
            == "tessera: warning: cannot load theme "@ + text::debug_quoted(path) + " ("@ + (variant
            + "("@ + text::debug_quoted(m) + ")"@)
            + "); falling back to the embedded ayu_dark theme"@,
{
}

/// The contents of an optional text are that text.
pub proof fn law_contents_of_optional_texts(s: Option<&str>)
    ensures
        match s {
            Some(text) => startup::str_of(s) == Some(text@),
            None => startup::str_of(s) is None,
        },
{
}

} // verus!
