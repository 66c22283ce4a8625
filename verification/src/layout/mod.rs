//! Layout engines: pure, X-free placement algorithms.
//!
//! Each layout maps a window list in focus-history order (most recent first)
//! onto an area; the `focus` index selects the master window.
use vstd::prelude::*;
use crate::geometry::{Placement, Rect, WindowId};

pub mod master_stack;
pub mod share_laws;
pub mod tiling_laws;

pub use master_stack::{MasterStack, DEFAULT_MASTER_RATIO};

verus! {

/// A pure window-layout algorithm with zero X dependencies.
///
/// `arrange` receives `windows` in focus-history order (most recent first);
/// `focus` is the index of the focused window within that slice.
pub trait Layout: Send + Sync {
    /// The text that `name` returns.
    spec fn label(&self) -> Seq<char>;

    /// Whether the cells cut from `area` for `count` windows have coordinates
    /// that fit their types.
    spec fn cells_fit(&self, count: nat, area: Rect) -> bool;

    /// The placements that `arrange` returns.
    spec fn arranged(&self, windows: Seq<WindowId>, area: Rect, focus: int) -> Seq<Placement>;

    /// Human-readable layout name.
    fn name(&self) -> (r: &'static str)
        ensures
            r@ == self.label(),
    ;

    /// Computes placements for `windows` inside `area`.
    fn arrange(&self, windows: &[WindowId], area: Rect, focus: usize) -> (r: Vec<Placement>)
        requires
            self.cells_fit(windows@.len(), area),
        ensures
            r@ == self.arranged(windows@, area, focus as int),
    ;
}

} // verus!
