//! Configuration: its fields and defaults, and the registry of bindings.
use vstd::prelude::*;
use crate::event::KeyCombo;
use crate::text;
use crate::theme::Color;

verus! {

/// Modifier mask for the "Super" (Mod4) key: X11 modifier bit 6.
pub const MOD_SUPER: u32 = 64;

/// Modifier mask for the "Control" key: X11 modifier bit 2.
pub const MOD_CONTROL: u32 = 4;

/// Modifier mask for the "Shift" key: X11 modifier bit 0.
pub const MOD_SHIFT: u32 = 1;

/// Super and Shift together.
pub const MOD_SUPER_SHIFT: u32 = 65;

// Keysyms for the default keybindings (X11 keysym table).
pub const KEY_RETURN: u32 = 0xff0d;

pub const KEY_J: u32 = 0x006a;

pub const KEY_K: u32 = 0x006b;

pub const KEY_Q: u32 = 0x0071;

pub const KEY_SPACE: u32 = 0x0020;

pub const KEY_H: u32 = 0x0068;

pub const KEY_L: u32 = 0x006c;

pub const KEY_0: u32 = 0x0030;

pub const KEY_1: u32 = 0x0031;

/// The whole configuration.
#[derive(Debug, Clone, PartialEq, Eq)]
pub struct Config {
    pub general: GeneralConfig,
    pub keybindings: Keybindings,
    /// Status-bar configuration (`[bar]` table).
    pub bar: BarConfig,
}

/// The `[general]` table.
#[derive(Debug, Clone, PartialEq, Eq)]
pub struct GeneralConfig {
    pub border_width: u32,
    /// Gap applied by the layout on every side of every cell: cells touch, so
    /// `3` renders as 6px between two windows and 3px at the screen edge.
    pub gaps: u32,
    pub terminal: String,
    /// Launcher program run by the Ctrl+Space keybinding; never empty.
    pub launcher: Vec<String>,
    /// Optional path to a `theme.toml`.
    pub theme: Option<String>,
}

impl GeneralConfig {
    /// Border 2, gaps 3, `alacritty`, `rofi -show drun`, no theme file.
    pub open spec fn is_default(self) -> bool {
        &&& self.border_width == 2
        &&& self.gaps == 3
        &&& self.terminal@ == "alacritty"@
        &&& text::texts(self.launcher@) == seq!["rofi"@, "-show"@, "drun"@]
        &&& self.theme is None
    }
}

impl Default for GeneralConfig {
    fn default() -> (r: Self)
        ensures
            r.is_default(),
    {
        let launcher: Vec<String> = vec!["rofi".to_owned(), "-show".to_owned(), "drun".to_owned()];
        assert(text::texts(launcher@) =~= seq!["rofi"@, "-show"@, "drun"@]);
        GeneralConfig {
            border_width: 2,
            gaps: 3,
            terminal: "alacritty".to_owned(),
            launcher,
            theme: None,
        }
    }
}

/// Screen edge the status bar is drawn on (`[bar] position`).
#[derive(Debug, Clone, Copy, PartialEq, Eq, Structural)]
pub enum BarPosition {
    Top,
    Bottom,
    Left,
    Right,
}

impl Default for BarPosition {
    fn default() -> (r: Self)
        ensures
            r == BarPosition::Top,
    {
        BarPosition::Top
    }
}

/// A glyph size in pixels per em, as written: an integer, or the IEEE-754
/// bits of a decimal number.
#[derive(Debug, Clone, Copy, PartialEq, Eq, Structural)]
pub enum FontSize {
    Whole(i64),
    Bits(u64),
}

/// The bits of 12.0, the default glyph size.
pub const DEFAULT_FONT_SIZE_BITS: u64 = 0x4028_0000_0000_0000;

/// Status-bar configuration (`[bar]` table).
#[derive(Debug, Clone, PartialEq, Eq)]
pub struct BarConfig {
    pub position: BarPosition,
    /// `None` lets the renderer pick the per-edge default.
    pub thickness: Option<u16>,
    pub bg_color: Color,
    pub fg_color: Color,
    pub visible: bool,
    /// Absolute path to a TTF/OTF file used for the tag glyphs.
    pub font: String,
    /// Glyph size in pixels per em for `font`.
    pub font_size: FontSize,
}

impl BarConfig {
    /// Top edge, default thickness, `#222222` on `#EEEEEE`, visible.
    pub open spec fn is_default(self) -> bool {
        &&& self.position == BarPosition::Top
        &&& self.thickness is None
        &&& self.bg_color == (Color { r: 0x22, g: 0x22, b: 0x22 })
        &&& self.fg_color == (Color { r: 0xEE, g: 0xEE, b: 0xEE })
        &&& self.visible
        &&& self.font@ == "/usr/share/fonts/TTF/HackNerdFontMono-Regular.ttf"@
        &&& self.font_size == FontSize::Bits(DEFAULT_FONT_SIZE_BITS)
    }
}

impl Default for BarConfig {
    fn default() -> (r: Self)
        ensures
            r.is_default(),
    {
        BarConfig {
            position: BarPosition::Top,
            thickness: None,
            bg_color: Color { r: 0x22, g: 0x22, b: 0x22 },
            fg_color: Color { r: 0xEE, g: 0xEE, b: 0xEE },
            visible: true,
            font: "/usr/share/fonts/TTF/HackNerdFontMono-Regular.ttf".to_owned(),
            font_size: FontSize::Bits(DEFAULT_FONT_SIZE_BITS),
        }
    }
}

/// The `[keybindings]` table.
#[derive(Debug, Clone, PartialEq, Eq)]
pub struct Keybindings {
    pub terminal: KeyCombo,
    pub focus_next: KeyCombo,
    pub focus_prev: KeyCombo,
    pub close: KeyCombo,
    /// Index `i` switches to workspace `i + 1`.
    pub workspace: [KeyCombo; 10],
    pub toggle_layout: KeyCombo,
    pub launcher: KeyCombo,
    /// Steps to the previous/next workspace in ascending id order, wrapping.
    pub workspace_prev: KeyCombo,
    pub workspace_next: KeyCombo,
    /// Index `i` sends the focused window to workspace `i + 1`.
    pub move_to_workspace: [KeyCombo; 10],
    /// Moves focus to the geometrically adjacent window in that direction.
    pub focus_left: KeyCombo,
    pub focus_down: KeyCombo,
    pub focus_up: KeyCombo,
    pub focus_right: KeyCombo,
}

/// The keysym of the digit that selects workspace `i + 1`: 1 to 9, then 0.
pub open spec fn digit_keysym(i: int) -> u32 {
    if i == 9 {
        KEY_0
    } else {
        (KEY_1 + i) as u32
    }
}

/// `mods` with each digit key in workspace order.
pub open spec fn digit_combos(mods: u32) -> Seq<KeyCombo> {
    Seq::new(10, |i: int| KeyCombo { mods, key: digit_keysym(i) })
}

impl Keybindings {
    /// The documented default bindings.
    pub open spec fn is_default(self) -> bool {
        &&& self.terminal == (KeyCombo { mods: MOD_SUPER, key: KEY_RETURN })
        &&& self.focus_next == (KeyCombo { mods: MOD_SUPER, key: KEY_J })
        &&& self.focus_prev == (KeyCombo { mods: MOD_SUPER, key: KEY_K })
        &&& self.close == (KeyCombo { mods: MOD_SUPER, key: KEY_Q })
        &&& self.workspace@ == digit_combos(MOD_SUPER)
        &&& self.toggle_layout == (KeyCombo { mods: MOD_SUPER, key: KEY_SPACE })
        &&& self.launcher == (KeyCombo { mods: MOD_CONTROL, key: KEY_SPACE })
        &&& self.workspace_prev == (KeyCombo { mods: MOD_SUPER, key: KEY_H })
        &&& self.workspace_next == (KeyCombo { mods: MOD_SUPER, key: KEY_L })
        &&& self.move_to_workspace@ == digit_combos(MOD_SUPER_SHIFT)
        &&& self.focus_left == (KeyCombo { mods: MOD_SUPER_SHIFT, key: KEY_H })
        &&& self.focus_down == (KeyCombo { mods: MOD_SUPER_SHIFT, key: KEY_J })
        &&& self.focus_up == (KeyCombo { mods: MOD_SUPER_SHIFT, key: KEY_K })
        &&& self.focus_right == (KeyCombo { mods: MOD_SUPER_SHIFT, key: KEY_L })
    }
}

/// `mods` with the digits 1 to 9 and 0, in workspace order.
fn digit_bindings(mods: u32) -> (r: [KeyCombo; 10])
    ensures
        r@ == digit_combos(mods),
{
    let r: [KeyCombo; 10] = [
        KeyCombo { mods, key: 0x31 },
        KeyCombo { mods, key: 0x32 },
        KeyCombo { mods, key: 0x33 },
        KeyCombo { mods, key: 0x34 },
        KeyCombo { mods, key: 0x35 },
        KeyCombo { mods, key: 0x36 },
        KeyCombo { mods, key: 0x37 },
        KeyCombo { mods, key: 0x38 },
        KeyCombo { mods, key: 0x39 },
        KeyCombo { mods, key: 0x30 },
    ];
    assert(r@ =~= digit_combos(mods));
    r
}

impl Default for Keybindings {
    fn default() -> (r: Self)
        ensures
            r.is_default(),
    {
        Keybindings {
            terminal: KeyCombo { mods: MOD_SUPER, key: KEY_RETURN },
            focus_next: KeyCombo { mods: MOD_SUPER, key: KEY_J },
            focus_prev: KeyCombo { mods: MOD_SUPER, key: KEY_K },
            close: KeyCombo { mods: MOD_SUPER, key: KEY_Q },
            workspace: digit_bindings(MOD_SUPER),
            toggle_layout: KeyCombo { mods: MOD_SUPER, key: KEY_SPACE },
            launcher: KeyCombo { mods: MOD_CONTROL, key: KEY_SPACE },
            workspace_prev: KeyCombo { mods: MOD_SUPER, key: KEY_H },
            workspace_next: KeyCombo { mods: MOD_SUPER, key: KEY_L },
            move_to_workspace: digit_bindings(MOD_SUPER_SHIFT),
            focus_left: KeyCombo { mods: MOD_SUPER_SHIFT, key: KEY_H },
            focus_down: KeyCombo { mods: MOD_SUPER_SHIFT, key: KEY_J },
            focus_up: KeyCombo { mods: MOD_SUPER_SHIFT, key: KEY_K },
            focus_right: KeyCombo { mods: MOD_SUPER_SHIFT, key: KEY_L },
        }
    }
}

/// The named bindings as texts with their combinations.
pub open spec fn named(pairs: Seq<(String, KeyCombo)>) -> Seq<(Seq<char>, KeyCombo)> {
    pairs.map_values(|p: (String, KeyCombo)| (p.0@, p.1))
}

/// The numbered names `prefix1` to `prefix10`, each with its combination.
pub open spec fn numbered(prefix: Seq<char>, combos: Seq<KeyCombo>) -> Seq<(Seq<char>, KeyCombo)> {
    Seq::new(
        combos.len(),
        |i: int| (prefix + text::decimal((i + 1) as nat), combos[i]),
    )
}

impl Keybindings {
    /// Every configured binding with its claim-log name, in grab order: the
    /// scalars, then the workspace digits, then the move digits.
    pub open spec fn registry(&self) -> Seq<(Seq<char>, KeyCombo)> {
        seq![
            ("terminal"@, self.terminal),
            ("focus_next"@, self.focus_next),
            ("focus_prev"@, self.focus_prev),
            ("close"@, self.close),
            ("toggle_layout"@, self.toggle_layout),
            ("launcher"@, self.launcher),
            ("workspace_prev"@, self.workspace_prev),
            ("workspace_next"@, self.workspace_next),
            ("focus_left"@, self.focus_left),
            ("focus_down"@, self.focus_down),
            ("focus_up"@, self.focus_up),
            ("focus_right"@, self.focus_right),
        ] + numbered("workspace-"@, self.workspace@) + numbered(
            "move-to-workspace-"@,
            self.move_to_workspace@,
        )
    }

    /// The claim-log name paired with every configured binding.
    ///
    /// The destructure below is exhaustive and has no `..` rest pattern:
    /// adding a field to `Keybindings` fails to compile here until that field
    /// is given a claim-log name, so no binding can be left ungrabbed or
    /// unnamed while the claim line still counts it as healthy. Emission
    /// order is written, not derived from declaration order; the numbered
    /// names come from the array's own index.
    pub fn named_bindings(&self) -> (r: Vec<(String, KeyCombo)>)
        ensures
            named(r@) == self.registry(),
    {
        let Keybindings {
            terminal,
            focus_next,
            focus_prev,
            close,
            workspace,
            toggle_layout,
            launcher,
            workspace_prev,
            workspace_next,
            move_to_workspace,
            focus_left,
            focus_down,
            focus_up,
            focus_right,
        } = self;
        let mut pairs: Vec<(String, KeyCombo)> = vec![
            ("terminal".to_owned(), *terminal),
            ("focus_next".to_owned(), *focus_next),
            ("focus_prev".to_owned(), *focus_prev),
            ("close".to_owned(), *close),
            ("toggle_layout".to_owned(), *toggle_layout),
            ("launcher".to_owned(), *launcher),
            ("workspace_prev".to_owned(), *workspace_prev),
            ("workspace_next".to_owned(), *workspace_next),
            ("focus_left".to_owned(), *focus_left),
            ("focus_down".to_owned(), *focus_down),
            ("focus_up".to_owned(), *focus_up),
            ("focus_right".to_owned(), *focus_right),
        ];
        let ghost scalars = named(pairs@);
        assert(scalars =~= self.registry().take(12));
        append_numbered(&mut pairs, "workspace-", workspace);
        append_numbered(&mut pairs, "move-to-workspace-", move_to_workspace);
        assert(named(pairs@) =~= self.registry());
        pairs
    }
}

/// Appends `prefix1` to `prefix10` with their combinations.
fn append_numbered(pairs: &mut Vec<(String, KeyCombo)>, prefix: &str, combos: &[KeyCombo; 10])
    ensures
        named(final(pairs)@) == named(old(pairs)@) + numbered(prefix@, combos@),
{
    let ghost before = named(pairs@);
    let mut i: usize = 0;
    while i < 10
        invariant
            i <= 10,
            named(pairs@) == before + numbered(prefix@, combos@).take(i as int),
        decreases 10 - i,
    {
        let name = text::joined(prefix, text::decimal_text(i as u64 + 1).as_str());
        let ghost entry = (name@, combos@[i as int]);
        let ghost old_pairs = pairs@;
        pairs.push((name, combos[i]));
        proof {
            assert(named(pairs@) =~= named(old_pairs).push(entry));
            assert(numbered(prefix@, combos@).take(i + 1) =~= numbered(prefix@, combos@).take(
                i as int,
            ).push(entry));
            assert(named(pairs@) =~= before + numbered(prefix@, combos@).take(i + 1));
        }
        i = i + 1;
    }
    assert(numbered(prefix@, combos@).take(10) =~= numbered(prefix@, combos@));
}

impl Config {
    /// Every table at its defaults.
    pub open spec fn is_default(self) -> bool {
        self.general.is_default() && self.keybindings.is_default() && self.bar.is_default()
    }
}

impl Default for Config {
    fn default() -> (r: Self)
        ensures
            r.is_default(),
    {
        Config {
            general: GeneralConfig::default(),
            keybindings: Keybindings::default(),
            bar: BarConfig::default(),
        }
    }
}

/// Errors while reading or parsing the configuration file.
#[derive(Debug, Clone, PartialEq, Eq)]
pub enum ConfigError {
    Io(String),
    Parse(String),
}

} // verus!
