//! The configuration file: strict TOML tables with per-field defaults, and a
//! reload that keeps the old configuration on any error.
use std::sync::Arc;
use vstd::prelude::*;
use crate::config;
use crate::config::{BarConfig, BarPosition, Config, ConfigError, FontSize, GeneralConfig, Keybindings};
use crate::decode;
use crate::document;
use crate::document::{Node, NodeView};
use crate::event::KeyCombo;
use crate::text;
use crate::theme::Color;

verus! {

/// The contents of a [`GeneralConfig`].
pub struct GeneralView {
    pub border_width: u32,
    pub gaps: u32,
    pub terminal: Seq<char>,
    pub launcher: Seq<Seq<char>>,
    pub theme: Option<Seq<char>>,
}

/// The contents of a [`Keybindings`].
pub struct KeybindingsView {
    pub terminal: KeyCombo,
    pub focus_next: KeyCombo,
    pub focus_prev: KeyCombo,
    pub close: KeyCombo,
    pub workspace: Seq<KeyCombo>,
    pub toggle_layout: KeyCombo,
    pub launcher: KeyCombo,
    pub workspace_prev: KeyCombo,
    pub workspace_next: KeyCombo,
    pub move_to_workspace: Seq<KeyCombo>,
    pub focus_left: KeyCombo,
    pub focus_down: KeyCombo,
    pub focus_up: KeyCombo,
    pub focus_right: KeyCombo,
}

/// The contents of a [`BarConfig`].
pub struct BarView {
    pub position: BarPosition,
    pub thickness: Option<u16>,
    pub bg_color: Color,
    pub fg_color: Color,
    pub visible: bool,
    pub font: Seq<char>,
    pub font_size: FontSize,
}

/// The contents of a [`Config`].
pub struct ConfigView {
    pub general: GeneralView,
    pub keybindings: KeybindingsView,
    pub bar: BarView,
}

impl View for GeneralConfig {
    type V = GeneralView;

    open spec fn view(&self) -> GeneralView {
        GeneralView {
            border_width: self.border_width,
            gaps: self.gaps,
            terminal: self.terminal@,
            launcher: text::texts(self.launcher@),
            theme: decode::optional_text(self.theme),
        }
    }
}

impl View for Keybindings {
    type V = KeybindingsView;

    open spec fn view(&self) -> KeybindingsView {
        KeybindingsView {
            terminal: self.terminal,
            focus_next: self.focus_next,
            focus_prev: self.focus_prev,
            close: self.close,
            workspace: self.workspace@,
            toggle_layout: self.toggle_layout,
            launcher: self.launcher,
            workspace_prev: self.workspace_prev,
            workspace_next: self.workspace_next,
            move_to_workspace: self.move_to_workspace@,
            focus_left: self.focus_left,
            focus_down: self.focus_down,
            focus_up: self.focus_up,
            focus_right: self.focus_right,
        }
    }
}

impl View for BarConfig {
    type V = BarView;

    open spec fn view(&self) -> BarView {
        BarView {
            position: self.position,
            thickness: self.thickness,
            bg_color: self.bg_color,
            fg_color: self.fg_color,
            visible: self.visible,
            font: self.font@,
            font_size: self.font_size,
        }
    }
}

impl View for Config {
    type V = ConfigView;

    open spec fn view(&self) -> ConfigView {
        ConfigView {
            general: self.general@,
            keybindings: self.keybindings@,
            bar: self.bar@,
        }
    }
}

/// The defaults of the `[general]` table.
pub open spec fn general_defaults() -> GeneralView {
    GeneralView {
        border_width: 2,
        gaps: 3,
        terminal: "alacritty"@,
        launcher: seq!["rofi"@, "-show"@, "drun"@],
        theme: None,
    }
}

/// The defaults of the `[keybindings]` table.
pub open spec fn keybinding_defaults() -> KeybindingsView {
    KeybindingsView {
        terminal: KeyCombo { mods: config::MOD_SUPER, key: config::KEY_RETURN },
        focus_next: KeyCombo { mods: config::MOD_SUPER, key: config::KEY_J },
        focus_prev: KeyCombo { mods: config::MOD_SUPER, key: config::KEY_K },
        close: KeyCombo { mods: config::MOD_SUPER, key: config::KEY_Q },
        workspace: config::digit_combos(config::MOD_SUPER),
        toggle_layout: KeyCombo { mods: config::MOD_SUPER, key: config::KEY_SPACE },
        launcher: KeyCombo { mods: config::MOD_CONTROL, key: config::KEY_SPACE },
        workspace_prev: KeyCombo { mods: config::MOD_SUPER, key: config::KEY_H },
        workspace_next: KeyCombo { mods: config::MOD_SUPER, key: config::KEY_L },
        move_to_workspace: config::digit_combos(config::MOD_SUPER_SHIFT),
        focus_left: KeyCombo { mods: config::MOD_SUPER_SHIFT, key: config::KEY_H },
        focus_down: KeyCombo { mods: config::MOD_SUPER_SHIFT, key: config::KEY_J },
        focus_up: KeyCombo { mods: config::MOD_SUPER_SHIFT, key: config::KEY_K },
        focus_right: KeyCombo { mods: config::MOD_SUPER_SHIFT, key: config::KEY_L },
    }
}

/// The defaults of the `[bar]` table.
pub open spec fn bar_defaults() -> BarView {
    BarView {
        position: BarPosition::Top,
        thickness: None,
        bg_color: Color { r: 0x22, g: 0x22, b: 0x22 },
        fg_color: Color { r: 0xEE, g: 0xEE, b: 0xEE },
        visible: true,
        font: "/usr/share/fonts/TTF/HackNerdFontMono-Regular.ttf"@,
        font_size: FontSize::Bits(config::DEFAULT_FONT_SIZE_BITS),
    }
}

/// The defaults of every table.
pub open spec fn config_defaults() -> ConfigView {
    ConfigView {
        general: general_defaults(),
        keybindings: keybinding_defaults(),
        bar: bar_defaults(),
    }
}

/// A configuration at its defaults holds the default values, and nothing else
/// does.
pub proof fn law_defaults_are_one_value(c: Config)
    ensures
        c.is_default() <==> c@ == config_defaults(),
{
    let k = c.keybindings;
    assert(c.is_default() ==> c.general@ == general_defaults());
    assert(c.is_default() ==> k@ == keybinding_defaults());
    assert(c.is_default() ==> c.bar@ == bar_defaults());
}

/// The keys of the `[general]` table.
pub open spec fn general_fields() -> Seq<Seq<char>> {
    seq![
        "border_width"@,
        "gaps"@,
        "terminal"@,
        "launcher"@,
        "theme"@,
    ]
}

/// The `[general]` table: every field defaults by itself.
pub open spec fn general_of(node: NodeView) -> Result<GeneralView, Seq<char>> {
    match decode::fields(node, general_fields(), true) {
        Err(m) => Err(m),
        Ok(f) => {
            let base = general_defaults();
            let border_width = decode::or_default(
                "border_width"@,
                f[0],
                base.border_width,
                |v: NodeView| decode::number(v),
            );
            let gaps = decode::or_default(
                "gaps"@,
                f[1],
                base.gaps,
                |v: NodeView| decode::number(v),
            );
            let terminal = decode::or_default(
                "terminal"@,
                f[2],
                base.terminal,
                |v: NodeView| decode::string(v),
            );
            let launcher = decode::or_default(
                "launcher"@,
                f[3],
                base.launcher,
                |v: NodeView| decode::launcher(v),
            );
            let theme = decode::or_default(
                "theme"@,
                f[4],
                base.theme,
                |v: NodeView| decode::present(decode::string(v)),
            );
            if border_width is Err {
                Err(border_width->Err_0)
            } else if gaps is Err {
                Err(gaps->Err_0)
            } else if terminal is Err {
                Err(terminal->Err_0)
            } else if launcher is Err {
                Err(launcher->Err_0)
            } else if theme is Err {
                Err(theme->Err_0)
            } else {
                Ok(
                    GeneralView {
                        border_width: border_width->Ok_0,
                        gaps: gaps->Ok_0,
                        terminal: terminal->Ok_0,
                        launcher: launcher->Ok_0,
                        theme: theme->Ok_0,
                    },
                )
            }
        },
    }
}

fn read_general(node: &Node) -> (r: Result<GeneralConfig, String>)
    ensures
        general_of(node@) == match r {
            Ok(v) => Ok::<GeneralView, Seq<char>>(v@),
            Err(m) => Err::<GeneralView, Seq<char>>(m@),
        },
{
    let names: Vec<&'static str> = vec![
        "border_width",
        "gaps",
        "terminal",
        "launcher",
        "theme",
    ];
    assert(decode::name_texts(names@) =~= general_fields());
    let f = match decode::read_fields(node, &names, true) {
        Ok(f) => f,
        Err(m) => return Err(m),
    };
    let ghost views = decode::field_views(f@);
    assert(views.len() == 5);
    assert(forall|i: int|
        0 <= i < 5 ==> #[trigger] views[i] == decode::field_view(f@[i]));
    let base = GeneralConfig::default();
    let border_width = match decode::number_or("border_width", f[0], base.border_width) {
        Ok(v) => v,
        Err(m) => return Err(m),
    };
    let gaps = match decode::number_or("gaps", f[1], base.gaps) {
        Ok(v) => v,
        Err(m) => return Err(m),
    };
    let terminal = match decode::string_or("terminal", f[2], base.terminal) {
        Ok(v) => v,
        Err(m) => return Err(m),
    };
    let launcher = match decode::launcher_or("launcher", f[3], base.launcher) {
        Ok(v) => v,
        Err(m) => return Err(m),
    };
    let theme = match decode::optional_string("theme", f[4]) {
        Ok(v) => v,
        Err(m) => return Err(m),
    };
    Ok(GeneralConfig { border_width, gaps, terminal, launcher, theme })
}

/// The keys of the `[keybindings]` table.
pub open spec fn keybinding_fields() -> Seq<Seq<char>> {
    seq![
        "terminal"@,
        "focus_next"@,
        "focus_prev"@,
        "close"@,
        "workspace"@,
        "toggle_layout"@,
        "launcher"@,
        "workspace_prev"@,
        "workspace_next"@,
        "move_to_workspace"@,
        "focus_left"@,
        "focus_down"@,
        "focus_up"@,
        "focus_right"@,
    ]
}

/// The `[keybindings]` table: every binding defaults by itself.
pub open spec fn keybindings_of(node: NodeView) -> Result<KeybindingsView, Seq<char>> {
    match decode::fields(node, keybinding_fields(), true) {
        Err(m) => Err(m),
        Ok(f) => {
            let base = keybinding_defaults();
            let terminal = decode::or_default(
                "terminal"@,
                f[0],
                base.terminal,
                |v: NodeView| decode::combo(v),
            );
            let focus_next = decode::or_default(
                "focus_next"@,
                f[1],
                base.focus_next,
                |v: NodeView| decode::combo(v),
            );
            let focus_prev = decode::or_default(
                "focus_prev"@,
                f[2],
                base.focus_prev,
                |v: NodeView| decode::combo(v),
            );
            let close = decode::or_default(
                "close"@,
                f[3],
                base.close,
                |v: NodeView| decode::combo(v),
            );
            let workspace = decode::or_default(
                "workspace"@,
                f[4],
                base.workspace,
                |v: NodeView| decode::ten_combos(v),
            );
            let toggle_layout = decode::or_default(
                "toggle_layout"@,
                f[5],
                base.toggle_layout,
                |v: NodeView| decode::combo(v),
            );
            let launcher = decode::or_default(
                "launcher"@,
                f[6],
                base.launcher,
                |v: NodeView| decode::combo(v),
            );
            let workspace_prev = decode::or_default(
                "workspace_prev"@,
                f[7],
                base.workspace_prev,
                |v: NodeView| decode::combo(v),
            );
            let workspace_next = decode::or_default(
                "workspace_next"@,
                f[8],
                base.workspace_next,
                |v: NodeView| decode::combo(v),
            );
            let move_to_workspace = decode::or_default(
                "move_to_workspace"@,
                f[9],
                base.move_to_workspace,
                |v: NodeView| decode::ten_combos(v),
            );
            let focus_left = decode::or_default(
                "focus_left"@,
                f[10],
                base.focus_left,
                |v: NodeView| decode::combo(v),
            );
            let focus_down = decode::or_default(
                "focus_down"@,
                f[11],
                base.focus_down,
                |v: NodeView| decode::combo(v),
            );
            let focus_up = decode::or_default(
                "focus_up"@,
                f[12],
                base.focus_up,
                |v: NodeView| decode::combo(v),
            );
            let focus_right = decode::or_default(
                "focus_right"@,
                f[13],
                base.focus_right,
                |v: NodeView| decode::combo(v),
            );
            if terminal is Err {
                Err(terminal->Err_0)
            } else if focus_next is Err {
                Err(focus_next->Err_0)
            } else if focus_prev is Err {
                Err(focus_prev->Err_0)
            } else if close is Err {
                Err(close->Err_0)
            } else if workspace is Err {
                Err(workspace->Err_0)
            } else if toggle_layout is Err {
                Err(toggle_layout->Err_0)
            } else if launcher is Err {
                Err(launcher->Err_0)
            } else if workspace_prev is Err {
                Err(workspace_prev->Err_0)
            } else if workspace_next is Err {
                Err(workspace_next->Err_0)
            } else if move_to_workspace is Err {
                Err(move_to_workspace->Err_0)
            } else if focus_left is Err {
                Err(focus_left->Err_0)
            } else if focus_down is Err {
                Err(focus_down->Err_0)
            } else if focus_up is Err {
                Err(focus_up->Err_0)
            } else if focus_right is Err {
                Err(focus_right->Err_0)
            } else {
                Ok(
                    KeybindingsView {
                        terminal: terminal->Ok_0,
                        focus_next: focus_next->Ok_0,
                        focus_prev: focus_prev->Ok_0,
                        close: close->Ok_0,
                        workspace: workspace->Ok_0,
                        toggle_layout: toggle_layout->Ok_0,
                        launcher: launcher->Ok_0,
                        workspace_prev: workspace_prev->Ok_0,
                        workspace_next: workspace_next->Ok_0,
                        move_to_workspace: move_to_workspace->Ok_0,
                        focus_left: focus_left->Ok_0,
                        focus_down: focus_down->Ok_0,
                        focus_up: focus_up->Ok_0,
                        focus_right: focus_right->Ok_0,
                    },
                )
            }
        },
    }
}

fn read_keybindings(node: &Node) -> (r: Result<Keybindings, String>)
    ensures
        keybindings_of(node@) == match r {
            Ok(v) => Ok::<KeybindingsView, Seq<char>>(v@),
            Err(m) => Err::<KeybindingsView, Seq<char>>(m@),
        },
{
    let names: Vec<&'static str> = vec![
        "terminal",
        "focus_next",
        "focus_prev",
        "close",
        "workspace",
        "toggle_layout",
        "launcher",
        "workspace_prev",
        "workspace_next",
        "move_to_workspace",
        "focus_left",
        "focus_down",
        "focus_up",
        "focus_right",
    ];
    assert(decode::name_texts(names@) =~= keybinding_fields());
    let f = match decode::read_fields(node, &names, true) {
        Ok(f) => f,
        Err(m) => return Err(m),
    };
    let ghost views = decode::field_views(f@);
    assert(views.len() == 14);
    assert(forall|i: int|
        0 <= i < 14 ==> #[trigger] views[i] == decode::field_view(f@[i]));
    let base = Keybindings::default();
    assert(base@ == keybinding_defaults());
    let terminal = match decode::combo_or("terminal", f[0], base.terminal) {
        Ok(v) => v,
        Err(m) => return Err(m),
    };
    let focus_next = match decode::combo_or("focus_next", f[1], base.focus_next) {
        Ok(v) => v,
        Err(m) => return Err(m),
    };
    let focus_prev = match decode::combo_or("focus_prev", f[2], base.focus_prev) {
        Ok(v) => v,
        Err(m) => return Err(m),
    };
    let close = match decode::combo_or("close", f[3], base.close) {
        Ok(v) => v,
        Err(m) => return Err(m),
    };
    let workspace = match decode::ten_combos_or("workspace", f[4], base.workspace) {
        Ok(v) => v,
        Err(m) => return Err(m),
    };
    let toggle_layout = match decode::combo_or("toggle_layout", f[5], base.toggle_layout) {
        Ok(v) => v,
        Err(m) => return Err(m),
    };
    let launcher = match decode::combo_or("launcher", f[6], base.launcher) {
        Ok(v) => v,
        Err(m) => return Err(m),
    };
    let workspace_prev = match decode::combo_or("workspace_prev", f[7], base.workspace_prev) {
        Ok(v) => v,
        Err(m) => return Err(m),
    };
    let workspace_next = match decode::combo_or("workspace_next", f[8], base.workspace_next) {
        Ok(v) => v,
        Err(m) => return Err(m),
    };
    let move_to_workspace = match decode::ten_combos_or("move_to_workspace", f[9], base.move_to_workspace) {
        Ok(v) => v,
        Err(m) => return Err(m),
    };
    let focus_left = match decode::combo_or("focus_left", f[10], base.focus_left) {
        Ok(v) => v,
        Err(m) => return Err(m),
    };
    let focus_down = match decode::combo_or("focus_down", f[11], base.focus_down) {
        Ok(v) => v,
        Err(m) => return Err(m),
    };
    let focus_up = match decode::combo_or("focus_up", f[12], base.focus_up) {
        Ok(v) => v,
        Err(m) => return Err(m),
    };
    let focus_right = match decode::combo_or("focus_right", f[13], base.focus_right) {
        Ok(v) => v,
        Err(m) => return Err(m),
    };
    Ok(Keybindings { terminal, focus_next, focus_prev, close, workspace, toggle_layout, launcher, workspace_prev, workspace_next, move_to_workspace, focus_left, focus_down, focus_up, focus_right })
}

/// The keys of the `[bar]` table.
pub open spec fn bar_fields() -> Seq<Seq<char>> {
    seq![
        "position"@,
        "thickness"@,
        "bg_color"@,
        "fg_color"@,
        "visible"@,
        "font"@,
        "font_size"@,
    ]
}

/// The `[bar]` table: every field defaults by itself.
pub open spec fn bar_of(node: NodeView) -> Result<BarView, Seq<char>> {
    match decode::fields(node, bar_fields(), true) {
        Err(m) => Err(m),
        Ok(f) => {
            let base = bar_defaults();
            let position = decode::or_default(
                "position"@,
                f[0],
                base.position,
                |v: NodeView| decode::edge(v),
            );
            let thickness = decode::or_default(
                "thickness"@,
                f[1],
                base.thickness,
                |v: NodeView| decode::present(decode::thickness(v)),
            );
            let bg_color = decode::or_default(
                "bg_color"@,
                f[2],
                base.bg_color,
                |v: NodeView| decode::color(v),
            );
            let fg_color = decode::or_default(
                "fg_color"@,
                f[3],
                base.fg_color,
                |v: NodeView| decode::color(v),
            );
            let visible = decode::or_default(
                "visible"@,
                f[4],
                base.visible,
                |v: NodeView| decode::flag(v),
            );
            let font = decode::or_default(
                "font"@,
                f[5],
                base.font,
                |v: NodeView| decode::string(v),
            );
            let font_size = decode::or_default(
                "font_size"@,
                f[6],
                base.font_size,
                |v: NodeView| decode::font_size(v),
            );
            if position is Err {
                Err(position->Err_0)
            } else if thickness is Err {
                Err(thickness->Err_0)
            } else if bg_color is Err {
                Err(bg_color->Err_0)
            } else if fg_color is Err {
                Err(fg_color->Err_0)
            } else if visible is Err {
                Err(visible->Err_0)
            } else if font is Err {
                Err(font->Err_0)
            } else if font_size is Err {
                Err(font_size->Err_0)
            } else {
                Ok(
                    BarView {
                        position: position->Ok_0,
                        thickness: thickness->Ok_0,
                        bg_color: bg_color->Ok_0,
                        fg_color: fg_color->Ok_0,
                        visible: visible->Ok_0,
                        font: font->Ok_0,
                        font_size: font_size->Ok_0,
                    },
                )
            }
        },
    }
}

fn read_bar(node: &Node) -> (r: Result<BarConfig, String>)
    ensures
        bar_of(node@) == match r {
            Ok(v) => Ok::<BarView, Seq<char>>(v@),
            Err(m) => Err::<BarView, Seq<char>>(m@),
        },
{
    let names: Vec<&'static str> = vec![
        "position",
        "thickness",
        "bg_color",
        "fg_color",
        "visible",
        "font",
        "font_size",
    ];
    assert(decode::name_texts(names@) =~= bar_fields());
    let f = match decode::read_fields(node, &names, true) {
        Ok(f) => f,
        Err(m) => return Err(m),
    };
    let ghost views = decode::field_views(f@);
    assert(views.len() == 7);
    assert(forall|i: int|
        0 <= i < 7 ==> #[trigger] views[i] == decode::field_view(f@[i]));
    let base = BarConfig::default();
    let position = match decode::edge_or("position", f[0], base.position) {
        Ok(v) => v,
        Err(m) => return Err(m),
    };
    let thickness = match decode::optional_thickness("thickness", f[1]) {
        Ok(v) => v,
        Err(m) => return Err(m),
    };
    let bg_color = match decode::color_or("bg_color", f[2], base.bg_color) {
        Ok(v) => v,
        Err(m) => return Err(m),
    };
    let fg_color = match decode::color_or("fg_color", f[3], base.fg_color) {
        Ok(v) => v,
        Err(m) => return Err(m),
    };
    let visible = match decode::flag_or("visible", f[4], base.visible) {
        Ok(v) => v,
        Err(m) => return Err(m),
    };
    let font = match decode::string_or("font", f[5], base.font) {
        Ok(v) => v,
        Err(m) => return Err(m),
    };
    let font_size = match decode::font_size_or("font_size", f[6], base.font_size) {
        Ok(v) => v,
        Err(m) => return Err(m),
    };
    Ok(BarConfig { position, thickness, bg_color, fg_color, visible, font, font_size })
}

/// The tables of a configuration file.
pub open spec fn config_fields() -> Seq<Seq<char>> {
    seq!["general"@, "keybindings"@, "bar"@]
}

/// The configuration that a parsed document denotes: absent tables are at
/// their defaults, unknown keys and bad values are rejected.
pub open spec fn config_of(doc: NodeView) -> Result<ConfigView, Seq<char>> {
    match decode::fields(doc, config_fields(), true) {
        Err(m) => Err(m),
        Ok(f) => {
            let general = decode::or_default(
                "general"@,
                f[0],
                general_defaults(),
                |v: NodeView| general_of(v),
            );
            let keybindings = decode::or_default(
                "keybindings"@,
                f[1],
                keybinding_defaults(),
                |v: NodeView| keybindings_of(v),
            );
            let bar = decode::or_default("bar"@, f[2], bar_defaults(), |v: NodeView| bar_of(v));
            if general is Err {
                Err(general->Err_0)
            } else if keybindings is Err {
                Err(keybindings->Err_0)
            } else if bar is Err {
                Err(bar->Err_0)
            } else {
                Ok(
                    ConfigView {
                        general: general->Ok_0,
                        keybindings: keybindings->Ok_0,
                        bar: bar->Ok_0,
                    },
                )
            }
        },
    }
}

/// What a configuration file denotes: the parser's message where it is no
/// TOML, else what the document denotes.
pub open spec fn config_parsed(raw: Seq<char>) -> Result<ConfigView, Seq<char>> {
    match document::document(raw) {
        Err(m) => Err(m),
        Ok(doc) => config_of(doc),
    }
}

impl Config {
    /// Decodes a parsed configuration file; unknown keys and bad values are
    /// rejected.
    pub fn decode(doc: &Node) -> (r: Result<Config, String>)
        ensures
            config_of(doc@) == match r {
                Ok(c) => Ok::<ConfigView, Seq<char>>(c@),
                Err(m) => Err::<ConfigView, Seq<char>>(m@),
            },
    {
        let names: Vec<&'static str> = vec!["general", "keybindings", "bar"];
        assert(decode::name_texts(names@) =~= config_fields());
        let f = match decode::read_fields(doc, &names, true) {
            Ok(f) => f,
            Err(m) => return Err(m),
        };
        let ghost views = decode::field_views(f@);
        assert(views.len() == 3);
        assert(forall|i: int| 0 <= i < 3 ==> #[trigger] views[i] == decode::field_view(f@[i]));
        let general = match f[0] {
            None => GeneralConfig::default(),
            Some(node) => match read_general(node) {
                Ok(v) => v,
                Err(m) => return Err(decode::in_field_text("general", m)),
            },
        };
        let keybindings = match f[1] {
            None => Keybindings::default(),
            Some(node) => match read_keybindings(node) {
                Ok(v) => v,
                Err(m) => return Err(decode::in_field_text("keybindings", m)),
            },
        };
        let bar = match f[2] {
            None => BarConfig::default(),
            Some(node) => match read_bar(node) {
                Ok(v) => v,
                Err(m) => return Err(decode::in_field_text("bar", m)),
            },
        };
        Ok(Config { general, keybindings, bar })
    }

    /// Parses raw TOML into a [`Config`]; unknown keys and malformed input
    /// are rejected so a bad file can never silently replace a good config.
    pub fn parse(raw: &str) -> (r: Result<Config, ConfigError>)
        ensures
            match r {
                Ok(c) => config_parsed(raw@) == Ok::<ConfigView, Seq<char>>(c@),
                Err(ConfigError::Parse(m)) => config_parsed(raw@) == Err::<ConfigView, Seq<char>>(
                    m@,
                ),
                Err(ConfigError::Io(_)) => false,
            },
    {
        match document::read_document(raw) {
            Ok(doc) => match Config::decode(&doc) {
                Ok(config) => Ok(config),
                Err(m) => Err(ConfigError::Parse(m)),
            },
            Err(m) => Err(ConfigError::Parse(m)),
        }
    }

    /// Puts a parsed configuration in place of the shared one; on an error
    /// the old one is kept. Returns whether it was replaced. Every other
    /// holder of the old configuration keeps working with it.
    pub fn adopt(shared: &mut Arc<Config>, parsed: Result<Config, ConfigError>) -> (r: bool)
        ensures
            match parsed {
                Ok(c) => r && **final(shared) == c,
                Err(_) => !r && *final(shared) == *old(shared),
            },
    {
        match parsed {
            Ok(new) => {
                *shared = Arc::new(new);
                true
            },
            Err(_) => false,
        }
    }

    /// Reloads from raw TOML: on success the shared configuration is
    /// replaced, on a parse error the old one is kept. Returns whether it was
    /// replaced.
    pub fn reload(shared: &mut Arc<Config>, raw: &str) -> (r: bool)
        ensures
            match config_parsed(raw@) {
                Ok(c) => r && (**final(shared))@ == c,
                Err(_) => !r && *final(shared) == *old(shared),
            },
    {
        Config::adopt(shared, Config::parse(raw))
    }
}

proof fn lemma_no_fields(names: Seq<Seq<char>>)
    ensures
        decode::fields(NodeView::Table(Seq::empty()), names, true) is Ok,
        decode::fields(NodeView::Table(Seq::empty()), names, true)->Ok_0.len() == names.len(),
        forall|i: int|
            0 <= i < names.len() ==> (#[trigger] decode::fields(
                NodeView::Table(Seq::empty()),
                names,
                true,
            )->Ok_0[i]) is None,
{
}

/// An empty `[general]` table holds the defaults.
pub proof fn law_empty_general_is_default()
    ensures
        general_of(NodeView::Table(Seq::empty())) == Ok::<GeneralView, Seq<char>>(
            general_defaults(),
        ),
{
    lemma_no_fields(general_fields());
}

/// An empty `[keybindings]` table holds the defaults.
pub proof fn law_empty_keybindings_are_default()
    ensures
        keybindings_of(NodeView::Table(Seq::empty())) == Ok::<KeybindingsView, Seq<char>>(
            keybinding_defaults(),
        ),
{
    lemma_no_fields(keybinding_fields());
}

/// An empty `[bar]` table holds the defaults.
pub proof fn law_empty_bar_is_default()
    ensures
        bar_of(NodeView::Table(Seq::empty())) == Ok::<BarView, Seq<char>>(bar_defaults()),
{
    lemma_no_fields(bar_fields());
}

/// A file without tables is the default configuration.
pub proof fn law_empty_config_is_default()
    ensures
        config_of(NodeView::Table(Seq::empty())) == Ok::<ConfigView, Seq<char>>(config_defaults()),
{
    lemma_no_fields(config_fields());
}

/// A key that a table does not have is rejected, in every table and at the
/// top.
pub proof fn law_unknown_config_keys_are_rejected(entries: Seq<(Seq<char>, NodeView)>, i: int)
    requires
        0 <= i < entries.len(),
    ensures
        !config_fields().contains(entries[i].0) ==> config_of(NodeView::Table(entries)) is Err,
        !general_fields().contains(entries[i].0) ==> general_of(NodeView::Table(entries)) is Err,
        !keybinding_fields().contains(entries[i].0) ==> keybindings_of(
            NodeView::Table(entries),
        ) is Err,
        !bar_fields().contains(entries[i].0) ==> bar_of(NodeView::Table(entries)) is Err,
{
    if !config_fields().contains(entries[i].0) {
        decode::lemma_stray_found(entries, config_fields(), i);
    }
    if !general_fields().contains(entries[i].0) {
        decode::lemma_stray_found(entries, general_fields(), i);
    }
    if !keybinding_fields().contains(entries[i].0) {
        decode::lemma_stray_found(entries, keybinding_fields(), i);
    }
    if !bar_fields().contains(entries[i].0) {
        decode::lemma_stray_found(entries, bar_fields(), i);
    }
}

/// An accepted configuration never has an empty launcher, nor an explicit
/// thickness outside `1..=200`.
pub proof fn law_accepted_configs_are_usable(doc: NodeView, c: ConfigView)
    requires
        config_of(doc) == Ok::<ConfigView, Seq<char>>(c),
    ensures
        c.general.launcher.len() > 0,
        c.bar.thickness matches Some(n) ==> 1 <= n <= 200,
        c.keybindings.workspace.len() == 10,
        c.keybindings.move_to_workspace.len() == 10,
{
    decode::lemma_ten_combos();
}

} // verus!
