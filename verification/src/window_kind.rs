//! Window classification and its manage policy.
//!
//! `WindowKind` is the EWMH-flavored kind of a window (`_NET_WM_WINDOW_TYPE`),
//! resolved by the display layer at map time. `ManagePolicy` is the core's
//! only reaction to it: tile it, or map it raw and leave workspace state
//! untouched.
use vstd::prelude::*;

verus! {

/// What the core does with a classified window.
#[derive(Debug, Clone, Copy, PartialEq, Eq, Structural)]
pub enum ManagePolicy {
    /// Framed, tiled, and focusable.
    Tile,
    /// Mapped and raised, never framed, tiled, or focused.
    MapOnly,
}

/// The EWMH-flavored kind of a window, resolved once at map time.
#[derive(Debug, Clone, Copy, PartialEq, Eq, Hash, Structural)]
pub enum WindowKind {
    Normal,
    Dialog,
    Utility,
    Toolbar,
    Notification,
    Tooltip,
    DropdownMenu,
    PopupMenu,
    Menu,
    Dock,
    Splash,
}

impl WindowKind {
    /// The group of kinds that a user works in.
    pub open spec fn is_tiled(self) -> bool {
        self is Normal || self is Dialog || self is Utility || self is Toolbar
    }

    /// Every kind, each once, in declaration order.
    pub fn all() -> (r: Vec<WindowKind>)
        ensures
            r@ == seq![
                WindowKind::Normal,
                WindowKind::Dialog,
                WindowKind::Utility,
                WindowKind::Toolbar,
                WindowKind::Notification,
                WindowKind::Tooltip,
                WindowKind::DropdownMenu,
                WindowKind::PopupMenu,
                WindowKind::Menu,
                WindowKind::Dock,
                WindowKind::Splash,
            ],
            forall|k: WindowKind| #[trigger] r@.contains(k),
            r@.no_duplicates(),
    {
        let r: Vec<WindowKind> = vec![
            WindowKind::Normal,
            WindowKind::Dialog,
            WindowKind::Utility,
            WindowKind::Toolbar,
            WindowKind::Notification,
            WindowKind::Tooltip,
            WindowKind::DropdownMenu,
            WindowKind::PopupMenu,
            WindowKind::Menu,
            WindowKind::Dock,
            WindowKind::Splash,
        ];
        proof {
            assert forall|k: WindowKind| #[trigger] r@.contains(k) by {
                let i: int = match k {
                    WindowKind::Normal => 0,
                    WindowKind::Dialog => 1,
                    WindowKind::Utility => 2,
                    WindowKind::Toolbar => 3,
                    WindowKind::Notification => 4,
                    WindowKind::Tooltip => 5,
                    WindowKind::DropdownMenu => 6,
                    WindowKind::PopupMenu => 7,
                    WindowKind::Menu => 8,
                    WindowKind::Dock => 9,
                    WindowKind::Splash => 10,
                };
                assert(r@[i] == k);
            }
        }
        r
    }

    /// The policy this kind resolves to.
    pub fn policy(self) -> (r: ManagePolicy)
        ensures
            r == if self.is_tiled() {
                ManagePolicy::Tile
            } else {
                ManagePolicy::MapOnly
            },
    {
        match self {
            WindowKind::Normal | WindowKind::Dialog | WindowKind::Utility | WindowKind::Toolbar =>
            ManagePolicy::Tile,
            WindowKind::Notification
            | WindowKind::Tooltip
            | WindowKind::DropdownMenu
            | WindowKind::PopupMenu
            | WindowKind::Menu
            | WindowKind::Dock
            | WindowKind::Splash => ManagePolicy::MapOnly,
        }
    }
}

/// Normal windows, dialogs, utilities and toolbars are tiled; every other kind
/// is only mapped.
pub proof fn law_kinds_that_are_tiled()
    ensures
        WindowKind::Normal.is_tiled(),
        WindowKind::Dialog.is_tiled(),
        WindowKind::Utility.is_tiled(),
        WindowKind::Toolbar.is_tiled(),
        !WindowKind::Notification.is_tiled(),
        !WindowKind::Tooltip.is_tiled(),
        !WindowKind::DropdownMenu.is_tiled(),
        !WindowKind::PopupMenu.is_tiled(),
        !WindowKind::Menu.is_tiled(),
        !WindowKind::Dock.is_tiled(),
        !WindowKind::Splash.is_tiled(),
{
}

} // verus!
