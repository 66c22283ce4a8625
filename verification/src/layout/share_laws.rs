//! How the master-stack layout shares the area out: who sits where, and how
//! large each cell is.
use vstd::prelude::*;
use crate::geometry::{Placement, Rect, WindowId};
use crate::layout::{master_stack, tiling_laws, Layout, MasterStack};

verus! {

/// Behind the master the other windows sit in the order in which they are
/// listed, and every placement carries the border of the layout.
pub proof fn law_others_keep_their_order(
    layout: MasterStack,
    windows: Seq<WindowId>,
    area: Rect,
    focus: int,
    k: int,
)
    requires
        0 <= focus < windows.len(),
        0 <= k < windows.len(),
    ensures
        ({
            let placed = layout.arranged(windows, area, focus);
            &&& placed.len() == windows.len()
            &&& placed[k].border == layout.border()
            &&& k == 0 ==> placed[k].window == windows[focus]
            &&& 0 < k <= focus ==> placed[k].window == windows[k - 1]
            &&& k > focus ==> placed[k].window == windows[k]
        }),
{
}

/// Without windows there is nothing to place, and a stale focus stands for the
/// first window.
pub proof fn law_stale_focus_is_the_first_window(
    layout: MasterStack,
    windows: Seq<WindowId>,
    area: Rect,
    focus: int,
)
    requires
        focus >= windows.len(),
    ensures
        layout.arranged(Seq::empty(), area, focus) == Seq::<Placement>::empty(),
        windows.len() > 0 ==> layout.arranged(windows, area, focus) == layout.arranged(
            windows,
            area,
            0,
        ),
{
}

/// Beside a stack the master takes its share of the width in thousandths,
/// rounded to the nearest pixel with halves up, and never more than all of it;
/// by itself it takes everything. The master stands on the left, over the
/// whole height.
pub proof fn law_master_takes_its_share(
    layout: MasterStack,
    windows: Seq<WindowId>,
    area: Rect,
    focus: int,
)
    requires
        layout.gaps() == 0,
        windows.len() > 0,
        focus >= 0,
        area.fits(),
    ensures
        ({
            let master = layout.arranged(windows, area, focus)[0].rect;
            &&& master.x == area.x
            &&& master.y == area.y
            &&& master.h == area.h
            &&& windows.len() == 1 ==> master.w == area.w
            &&& windows.len() > 1 && layout.ratio() <= 1000 ==> 1000 * (2 * master.w - 1) <= 2 * (
            area.w * layout.ratio()) < 1000 * (2 * master.w + 1)
            &&& windows.len() > 1 && layout.ratio() > 1000 ==> master.w == area.w
        }),
{
    let w = area.w as int;
    let ratio = layout.ratio() as int;
    let share = master_stack::rounded_share(layout.ratio(), area.w);
    assert(ratio <= 1000 ==> w * ratio <= w * 1000) by (nonlinear_arith)
        requires
            w >= 0,
    ;
    assert(ratio > 1000 ==> w * ratio >= w * 1000) by (nonlinear_arith)
        requires
            w >= 0,
    ;
    assert(0 <= w * ratio) by (nonlinear_arith)
        requires
            w >= 0,
            ratio >= 0,
    ;
}

/// A layout of the default ratio gives the master one half of the width.
pub proof fn law_default_share_is_one_half(
    layout: MasterStack,
    windows: Seq<WindowId>,
    area: Rect,
    focus: int,
)
    requires
        layout.ratio() == master_stack::DEFAULT_MASTER_RATIO,
        layout.gaps() == 0,
        windows.len() > 1,
        focus >= 0,
        area.fits(),
    ensures
        ({
            let master = layout.arranged(windows, area, focus)[0].rect;
            area.w <= 2 * master.w <= area.w + 1
        }),
{
    law_master_takes_its_share(layout, windows, area, focus);
}

/// The stack stands to the right of the master and takes the rest of the
/// width. Its windows stand one below the other and are equally high, but for
/// the last one, which takes what is left over.
pub proof fn law_stack_is_shared_equally(
    layout: MasterStack,
    windows: Seq<WindowId>,
    area: Rect,
    focus: int,
    k: int,
)
    requires
        layout.gaps() == 0,
        area.fits(),
        focus >= 0,
        1 <= k < windows.len(),
    ensures
        ({
            let placed = layout.arranged(windows, area, focus);
            let master = placed[0].rect;
            let slice = placed[k].rect;
            let n = windows.len() - 1;
            let each = area.h as int / n;
            &&& slice.x == area.x + master.w
            &&& slice.w == area.w - master.w
            &&& slice.y == area.y + (k - 1) * each
            &&& k < n ==> slice.h == each
            &&& k == n ==> slice.y + slice.h == area.y + area.h
        }),
{
    tiling_laws::lemma_area_fits(layout, windows.len(), area);
    tiling_laws::lemma_stack_cell(layout, area, windows.len() as int, k);
}

/// Gaps shrink each cell on every side, down to nothing: seen from the same
/// layout without gaps, a window moves in by one gap and loses two.
pub proof fn law_gaps_shrink_every_cell(
    layout: MasterStack,
    bare: MasterStack,
    windows: Seq<WindowId>,
    area: Rect,
    focus: int,
    k: int,
)
    requires
        bare.gaps() == 0,
        bare.ratio() == layout.ratio(),
        area.fits(),
        focus >= 0,
        0 <= k < windows.len(),
    ensures
        ({
            let g = layout.gaps();
            let cell = bare.arranged(windows, area, focus)[k].rect;
            let placed = layout.arranged(windows, area, focus)[k].rect;
            &&& placed.w == if cell.w >= 2 * g {
                cell.w - 2 * g
            } else {
                0
            }
            &&& placed.h == if cell.h >= 2 * g {
                cell.h - 2 * g
            } else {
                0
            }
            &&& placed.x == cell.x + if g <= cell.w {
                g
            } else {
                cell.w
            }
            &&& placed.y == cell.y + if g <= cell.h {
                g
            } else {
                cell.h
            }
        }),
{
    tiling_laws::lemma_area_fits(layout, windows.len(), area);
    tiling_laws::lemma_area_fits(bare, windows.len(), area);
    if k > 0 {
        tiling_laws::lemma_stack_cell(bare, area, windows.len() as int, k);
    }
    tiling_laws::law_placements_stay_inside(bare, windows, area, focus, k);
    tiling_laws::law_placements_stay_inside(layout, windows, area, focus, k);
}

/// The layout goes by its name.
pub proof fn law_layout_name(layout: MasterStack)
    ensures
        layout.label() == "master-stack"@,
{
}

} // verus!
