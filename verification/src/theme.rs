//! Pure theme model: canonical ayu_dark palette, lenient per-field fallback,
//! strict keys. A bad hex value is a parse error, never a silent default.
use vstd::prelude::*;
use crate::decode;
use crate::document;
use crate::document::{Node, NodeView};
use crate::text;

verus! {

/// A single RGB colour, parsed from a `#RRGGBB` hex string.
#[derive(Debug, Clone, Copy, PartialEq, Eq, Structural)]
pub struct Color {
    pub r: u8,
    pub g: u8,
    pub b: u8,
}

/// The value of the ASCII hex digit `b`, in either case.
pub open spec fn nibble(b: u8) -> Option<u8> {
    if 0x30 <= b <= 0x39 {
        Some((b - 0x30) as u8)
    } else if 0x61 <= b <= 0x66 {
        Some((b - 0x61 + 10) as u8)
    } else if 0x41 <= b <= 0x46 {
        Some((b - 0x41 + 10) as u8)
    } else {
        None
    }
}

/// The value of the two hex digits at `i`.
pub open spec fn octet(bytes: Seq<u8>, i: int) -> Option<u8> {
    match (nibble(bytes[i]), nibble(bytes[i + 1])) {
        (Some(hi), Some(lo)) => Some((hi * 16 + lo) as u8),
        _ => None,
    }
}

/// Whether `bytes` has the outer shape of a colour: `#` and six more bytes.
pub open spec fn color_shaped(bytes: Seq<u8>) -> bool {
    bytes.len() == 7 && bytes[0] == 0x23
}

/// The colour that `#RRGGBB` denotes; `None` for any other text.
pub open spec fn hex_color(bytes: Seq<u8>) -> Option<Color> {
    if color_shaped(bytes) {
        match (octet(bytes, 1), octet(bytes, 3), octet(bytes, 5)) {
            (Some(r), Some(g), Some(b)) => Some(Color { r, g, b }),
            _ => None,
        }
    } else {
        None
    }
}

/// The message for a text that is no colour.
pub open spec fn bad_color_message(s: Seq<char>) -> Seq<char> {
    "invalid color "@ + text::debug_quoted(s) + if color_shaped(vstd::utf8::encode_utf8(s)) {
        ": non-hex digit"@
    } else {
        ": expected a #RRGGBB string"@
    }
}

fn nibble_of(b: u8) -> (r: Option<u8>)
    ensures
        r == nibble(b),
{
    if 0x30 <= b && b <= 0x39 {
        Some(b - 0x30)
    } else if 0x61 <= b && b <= 0x66 {
        Some(b - 0x61 + 10)
    } else if 0x41 <= b && b <= 0x46 {
        Some(b - 0x41 + 10)
    } else {
        None
    }
}

fn octet_at(bytes: &[u8], i: usize) -> (r: Option<u8>)
    requires
        i + 1 < bytes@.len(),
    ensures
        r == octet(bytes@, i as int),
{
    match (nibble_of(bytes[i]), nibble_of(bytes[i + 1])) {
        (Some(hi), Some(lo)) => Some(hi * 16 + lo),
        _ => None,
    }
}

impl Color {
    /// Parses a `#RRGGBB` hex string (case-insensitive digits).
    ///
    /// Anything other than exactly `#` + 6 hex digits is rejected with a
    /// descriptive message, so a bad palette value can never silently corrupt
    /// a frame's border colour.
    pub fn parse_hex(s: &str) -> (r: Result<Color, String>)
        ensures
            match r {
                Ok(c) => hex_color(vstd::utf8::encode_utf8(s@)) == Some(c),
                Err(m) => hex_color(vstd::utf8::encode_utf8(s@)) is None && m@ == bad_color_message(s@),
            },
    {
        let bytes = s.as_bytes();
        let prefix = text::joined("invalid color ", text::quoted(s).as_str());
        if bytes.len() != 7 || bytes[0] != 0x23 {
            return Err(prefix.concat(": expected a #RRGGBB string"));
        }
        match (octet_at(bytes, 1), octet_at(bytes, 3), octet_at(bytes, 5)) {
            (Some(r), Some(g), Some(b)) => Ok(Color { r, g, b }),
            _ => Err(prefix.concat(": non-hex digit")),
        }
    }
}

/// Theme palette: the 10 ayu_dark colours plus optional explicit border
/// overrides.
#[derive(Debug, Clone, Copy, PartialEq, Eq, Structural)]
pub struct Theme {
    pub background: Color,
    pub foreground: Color,
    pub comment: Color,
    /// Primary accent colour (ayu `orange`); focused-frame border default.
    pub accent: Color,
    pub yellow: Color,
    pub blue: Color,
    pub cyan: Color,
    pub green: Color,
    pub magenta: Color,
    pub red: Color,
    /// Explicit focused-border colour; `None` derives from `accent`.
    pub active_border: Option<Color>,
    /// Explicit unfocused-border colour; `None` derives from `comment`.
    pub inactive_border: Option<Color>,
}

/// The embedded ayu_dark palette, without border overrides.
pub open spec fn ayu_dark() -> Theme {
    Theme {
        background: Color { r: 0x0A, g: 0x0E, b: 0x14 },
        foreground: Color { r: 0xB3, g: 0xB1, b: 0xAD },
        comment: Color { r: 0x62, g: 0x6A, b: 0x73 },
        accent: Color { r: 0xFF, g: 0x8F, b: 0x40 },
        yellow: Color { r: 0xE6, g: 0xB4, b: 0x50 },
        blue: Color { r: 0x39, g: 0xBA, b: 0xE6 },
        cyan: Color { r: 0x95, g: 0xE6, b: 0xCB },
        green: Color { r: 0xAA, g: 0xD9, b: 0x4C },
        magenta: Color { r: 0xD2, g: 0xA6, b: 0xFF },
        red: Color { r: 0xF2, g: 0x53, b: 0x58 },
        active_border: None,
        inactive_border: None,
    }
}

impl Default for Theme {
    fn default() -> (r: Self)
        ensures
            r == ayu_dark(),
    {
        Theme {
            background: Color { r: 0x0A, g: 0x0E, b: 0x14 },
            foreground: Color { r: 0xB3, g: 0xB1, b: 0xAD },
            comment: Color { r: 0x62, g: 0x6A, b: 0x73 },
            accent: Color { r: 0xFF, g: 0x8F, b: 0x40 },
            yellow: Color { r: 0xE6, g: 0xB4, b: 0x50 },
            blue: Color { r: 0x39, g: 0xBA, b: 0xE6 },
            cyan: Color { r: 0x95, g: 0xE6, b: 0xCB },
            green: Color { r: 0xAA, g: 0xD9, b: 0x4C },
            magenta: Color { r: 0xD2, g: 0xA6, b: 0xFF },
            red: Color { r: 0xF2, g: 0x53, b: 0x58 },
            active_border: None,
            inactive_border: None,
        }
    }
}

impl Theme {
    /// Border colour for focused frames: explicit override or `accent`.
    pub fn active_border(&self) -> (r: Color)
        ensures
            r == match self.active_border {
                Some(c) => c,
                None => self.accent,
            },
    {
        match self.active_border {
            Some(c) => c,
            None => self.accent,
        }
    }

    /// Border colour for unfocused frames: explicit override or `comment`.
    pub fn inactive_border(&self) -> (r: Color)
        ensures
            r == match self.inactive_border {
                Some(c) => c,
                None => self.comment,
            },
    {
        match self.inactive_border {
            Some(c) => c,
            None => self.comment,
        }
    }
}

/// The keys of a theme file.
pub open spec fn theme_fields() -> Seq<Seq<char>> {
    seq![
        "background"@,
        "foreground"@,
        "comment"@,
        "accent"@,
        "yellow"@,
        "blue"@,
        "cyan"@,
        "green"@,
        "magenta"@,
        "red"@,
        "active_border"@,
        "inactive_border"@,
    ]
}

/// A colour of the palette: the ayu_dark one where the file has none.
pub open spec fn palette_color(name: Seq<char>, field: Option<NodeView>, fallback: Color) -> Result<
    Color,
    Seq<char>,
> {
    decode::or_default(name, field, fallback, |node: NodeView| decode::color(node))
}

/// A border override: none where the file has none.
pub open spec fn border_color(name: Seq<char>, field: Option<NodeView>) -> Result<
    Option<Color>,
    Seq<char>,
> {
    decode::or_default(
        name,
        field,
        None,
        |node: NodeView| decode::present(decode::color(node)),
    )
}

/// The theme that a parsed document denotes: every field by itself falls back
/// to ayu_dark, unknown keys and bad values are rejected.
pub open spec fn theme_of(doc: NodeView) -> Result<Theme, Seq<char>> {
    match decode::fields(doc, theme_fields(), true) {
        Err(m) => Err(m),
        Ok(f) => {
            let background = palette_color("background"@, f[0], ayu_dark().background);
            let foreground = palette_color("foreground"@, f[1], ayu_dark().foreground);
            let comment = palette_color("comment"@, f[2], ayu_dark().comment);
            let accent = palette_color("accent"@, f[3], ayu_dark().accent);
            let yellow = palette_color("yellow"@, f[4], ayu_dark().yellow);
            let blue = palette_color("blue"@, f[5], ayu_dark().blue);
            let cyan = palette_color("cyan"@, f[6], ayu_dark().cyan);
            let green = palette_color("green"@, f[7], ayu_dark().green);
            let magenta = palette_color("magenta"@, f[8], ayu_dark().magenta);
            let red = palette_color("red"@, f[9], ayu_dark().red);
            let active_border = border_color("active_border"@, f[10]);
            let inactive_border = border_color("inactive_border"@, f[11]);
            if background is Err {
                Err(background->Err_0)
            } else if foreground is Err {
                Err(foreground->Err_0)
            } else if comment is Err {
                Err(comment->Err_0)
            } else if accent is Err {
                Err(accent->Err_0)
            } else if yellow is Err {
                Err(yellow->Err_0)
            } else if blue is Err {
                Err(blue->Err_0)
            } else if cyan is Err {
                Err(cyan->Err_0)
            } else if green is Err {
                Err(green->Err_0)
            } else if magenta is Err {
                Err(magenta->Err_0)
            } else if red is Err {
                Err(red->Err_0)
            } else if active_border is Err {
                Err(active_border->Err_0)
            } else if inactive_border is Err {
                Err(inactive_border->Err_0)
            } else {
                Ok(
                    Theme {
                        background: background->Ok_0,
                        foreground: foreground->Ok_0,
                        comment: comment->Ok_0,
                        accent: accent->Ok_0,
                        yellow: yellow->Ok_0,
                        blue: blue->Ok_0,
                        cyan: cyan->Ok_0,
                        green: green->Ok_0,
                        magenta: magenta->Ok_0,
                        red: red->Ok_0,
                        active_border: active_border->Ok_0,
                        inactive_border: inactive_border->Ok_0,
                    },
                )
            }
        },
    }
}

/// What a theme file denotes: the parser's message where it is no TOML, else
/// what the document denotes.
pub open spec fn theme_parsed(raw: Seq<char>) -> Result<Theme, Seq<char>> {
    match document::document(raw) {
        Err(m) => Err(m),
        Ok(doc) => theme_of(doc),
    }
}

impl Theme {
    /// Decodes a parsed theme file. Missing keys fall back per field to the
    /// ayu_dark defaults; unknown keys are rejected.
    pub fn decode(doc: &Node) -> (r: Result<Theme, String>)
        ensures
            decode::agrees(r, theme_of(doc@)),
    {
        let names: Vec<&'static str> = vec![
            "background",
            "foreground",
            "comment",
            "accent",
            "yellow",
            "blue",
            "cyan",
            "green",
            "magenta",
            "red",
            "active_border",
            "inactive_border",
        ];
        assert(decode::name_texts(names@) =~= theme_fields());
        let f = match decode::read_fields(doc, &names, true) {
            Ok(f) => f,
            Err(m) => return Err(m),
        };
        let ghost views = decode::field_views(f@);
        assert(views.len() == 12);
        assert(forall|i: int| 0 <= i < 12 ==> #[trigger] views[i] == decode::field_view(f@[i]));
        let base = Theme::default();
        let background = match decode::color_or("background", f[0], base.background) {
            Ok(c) => c,
            Err(m) => return Err(m),
        };
        let foreground = match decode::color_or("foreground", f[1], base.foreground) {
            Ok(c) => c,
            Err(m) => return Err(m),
        };
        let comment = match decode::color_or("comment", f[2], base.comment) {
            Ok(c) => c,
            Err(m) => return Err(m),
        };
        let accent = match decode::color_or("accent", f[3], base.accent) {
            Ok(c) => c,
            Err(m) => return Err(m),
        };
        let yellow = match decode::color_or("yellow", f[4], base.yellow) {
            Ok(c) => c,
            Err(m) => return Err(m),
        };
        let blue = match decode::color_or("blue", f[5], base.blue) {
            Ok(c) => c,
            Err(m) => return Err(m),
        };
        let cyan = match decode::color_or("cyan", f[6], base.cyan) {
            Ok(c) => c,
            Err(m) => return Err(m),
        };
        let green = match decode::color_or("green", f[7], base.green) {
            Ok(c) => c,
            Err(m) => return Err(m),
        };
        let magenta = match decode::color_or("magenta", f[8], base.magenta) {
            Ok(c) => c,
            Err(m) => return Err(m),
        };
        let red = match decode::color_or("red", f[9], base.red) {
            Ok(c) => c,
            Err(m) => return Err(m),
        };
        let active_border = match decode::optional_color("active_border", f[10]) {
            Ok(c) => c,
            Err(m) => return Err(m),
        };
        let inactive_border = match decode::optional_color("inactive_border", f[11]) {
            Ok(c) => c,
            Err(m) => return Err(m),
        };
        Ok(
            Theme {
                background,
                foreground,
                comment,
                accent,
                yellow,
                blue,
                cyan,
                green,
                magenta,
                red,
                active_border,
                inactive_border,
            },
        )
    }

    /// Parses raw TOML into a [`Theme`]. Missing keys fall back per field to
    /// the ayu_dark defaults; unknown keys are rejected.
    pub fn parse(raw: &str) -> (r: Result<Theme, ThemeError>)
        ensures
            match r {
                Ok(t) => theme_parsed(raw@) == Ok::<Theme, Seq<char>>(t),
                Err(ThemeError::Parse(m)) => theme_parsed(raw@) == Err::<Theme, Seq<char>>(m@),
                Err(ThemeError::Io(_)) => false,
            },
    {
        match document::read_document(raw) {
            Ok(doc) => match Theme::decode(&doc) {
                Ok(theme) => Ok(theme),
                Err(m) => Err(ThemeError::Parse(m)),
            },
            Err(m) => Err(ThemeError::Parse(m)),
        }
    }
}

/// A theme file without keys is the embedded palette.
pub proof fn law_empty_theme_is_ayu_dark()
    ensures
        theme_of(NodeView::Table(Seq::empty())) == Ok::<Theme, Seq<char>>(ayu_dark()),
{
}

/// A theme file with a key that no theme has is rejected.
pub proof fn law_unknown_theme_keys_are_rejected(entries: Seq<(Seq<char>, NodeView)>, i: int)
    requires
        0 <= i < entries.len(),
        !theme_fields().contains(entries[i].0),
    ensures
        theme_of(NodeView::Table(entries)) is Err,
{
    decode::lemma_stray_found(entries, theme_fields(), i);
}

/// A colour that a theme file leaves out stays that of ayu_dark, whatever
/// else the file sets.
pub proof fn law_unset_colors_stay_ayu_dark(entries: Seq<(Seq<char>, NodeView)>, t: Theme)
    requires
        theme_of(NodeView::Table(entries)) == Ok::<Theme, Seq<char>>(t),
    ensures
        decode::lookup(entries, "background"@) is None ==> t.background == ayu_dark().background,
        decode::lookup(entries, "foreground"@) is None ==> t.foreground == ayu_dark().foreground,
        decode::lookup(entries, "comment"@) is None ==> t.comment == ayu_dark().comment,
        decode::lookup(entries, "accent"@) is None ==> t.accent == ayu_dark().accent,
        decode::lookup(entries, "yellow"@) is None ==> t.yellow == ayu_dark().yellow,
        decode::lookup(entries, "blue"@) is None ==> t.blue == ayu_dark().blue,
        decode::lookup(entries, "cyan"@) is None ==> t.cyan == ayu_dark().cyan,
        decode::lookup(entries, "green"@) is None ==> t.green == ayu_dark().green,
        decode::lookup(entries, "magenta"@) is None ==> t.magenta == ayu_dark().magenta,
        decode::lookup(entries, "red"@) is None ==> t.red == ayu_dark().red,
        decode::lookup(entries, "active_border"@) is None ==> t.active_border == ayu_dark().active_border,
        decode::lookup(entries, "inactive_border"@) is None ==> t.inactive_border == ayu_dark().inactive_border,
{
    let f = Seq::new(
        theme_fields().len(),
        |i: int| decode::lookup(entries, theme_fields()[i]),
    );
    assert(f[0] == decode::lookup(entries, "background"@));
    assert(f[1] == decode::lookup(entries, "foreground"@));
    assert(f[2] == decode::lookup(entries, "comment"@));
    assert(f[3] == decode::lookup(entries, "accent"@));
    assert(f[4] == decode::lookup(entries, "yellow"@));
    assert(f[5] == decode::lookup(entries, "blue"@));
    assert(f[6] == decode::lookup(entries, "cyan"@));
    assert(f[7] == decode::lookup(entries, "green"@));
    assert(f[8] == decode::lookup(entries, "magenta"@));
    assert(f[9] == decode::lookup(entries, "red"@));
    assert(f[10] == decode::lookup(entries, "active_border"@));
    assert(f[11] == decode::lookup(entries, "inactive_border"@));
}

/// Errors while reading or parsing a theme file.
#[derive(Debug, Clone, PartialEq, Eq)]
pub enum ThemeError {
    Io(String),
    Parse(String),
}

} // verus!
