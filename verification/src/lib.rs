//! Tessera: the logic of an X11 tiling window manager, verified.

pub mod app;
pub mod app_effects;
pub mod app_laws;
pub mod bar;
pub mod bar_glyphs;
pub mod bar_laws;
pub mod bar_renderer;
pub mod binding_laws;
pub mod bindings;
pub mod bus;
pub mod bus_laws;
pub mod claim_log;
pub mod command;
pub mod config;
pub mod config_fields;
pub mod config_file;
pub mod decode;
pub mod decode_laws;
pub mod direction_laws;
pub mod display;
pub mod display_laws;
pub mod display_server;
pub mod document;
pub mod event;
pub mod event_loop;
pub mod ewmh;
pub mod ewmh_laws;
pub mod frame_laws;
pub mod frames;
pub mod geometry;
pub mod glyph_laws;
pub mod glyphs;
pub mod keyboard;
pub mod keyboard_laws;
pub mod layout;
pub mod lists;
pub mod request;
pub mod startup;
pub mod startup_laws;
pub mod text;
pub mod text_laws;
pub mod theme;
pub mod translate;
pub mod watch;
pub mod window;
pub mod window_effects;
pub mod window_kind;
pub mod window_type;
pub mod workspace;
pub mod workspace_effects;
pub mod workspace_laws;
pub mod workspace_model;

pub use app::App;
pub use bar_renderer::BarRenderer;
pub use bindings::command_for_key;
pub use bus::{EventBus, EventMask, WmState, WorkspaceState};
pub use command::Command;
pub use config::{BarConfig, BarPosition, Config, GeneralConfig, Keybindings};
pub use display::{DErr, DisplayServer, FrameId};
pub use display_server::X11Display;
pub use event::{Event, KeyCombo};
pub use geometry::{Direction, LayoutKind, Placement, Rect, WindowId, WorkspaceId};
pub use layout::master_stack::MasterStack;
pub use layout::Layout;
pub use startup::CliArgs;
pub use theme::{Color, Theme};
pub use window::{CommandEffect, WindowManager, WindowState};
pub use window_kind::{ManagePolicy, WindowKind};
pub use workspace::{Workspace, WorkspaceManager};
