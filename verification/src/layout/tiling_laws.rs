//! What the master-stack layout guarantees of the area as a whole.
use vstd::prelude::*;
use crate::geometry;
use crate::geometry::{Direction, Placement, Rect, WindowId};
use crate::layout::{master_stack, Layout, MasterStack};

verus! {

proof fn lemma_master_width_bounds(ratio: u32, w: u16)
    ensures
        0 <= master_stack::master_width(ratio, w) <= w,
{
    assert(0 <= w * ratio) by (nonlinear_arith);
}

proof fn lemma_slice_bounds(h: u16, stack_n: int)
    requires
        stack_n > 0,
    ensures
        0 <= master_stack::slice_height(h, stack_n),
        master_stack::slice_height(h, stack_n) * stack_n <= h,
        master_stack::slice_height(h, stack_n) <= h,
{
    assert(0 <= h as int / stack_n && (h as int / stack_n) * stack_n <= h && h as int / stack_n
        <= h) by (nonlinear_arith)
        requires
            stack_n > 0,
            h >= 0,
    ;
}

/// The exact coordinates of the `k`-th stack cell.
pub(crate) proof fn lemma_stack_cell(layout: MasterStack, area: Rect, count: int, k: int)
    requires
        count > 1,
        1 <= k < count,
        layout.cells_fit(count as nat, area),
    ensures
        ({
            let c = master_stack::cell(layout.ratio(), area, count, k);
            let mw = master_stack::master_width(layout.ratio(), area.w);
            let s = master_stack::slice_height(area.h, count - 1);
            &&& c.x == area.x + mw
            &&& c.w == area.w - mw
            &&& c.y == area.y + (k - 1) * s
            &&& c.h == (if k == count - 1 {
                area.h - (count - 2) * s
            } else {
                s
            })
            &&& 0 <= (k - 1) * s
            &&& (k - 1) * s + c.h <= area.h
            &&& k == count - 1 ==> (k - 1) * s + c.h == area.h
        }),
{
    lemma_master_width_bounds(layout.ratio(), area.w);
    lemma_slice_bounds(area.h, count - 1);
    let s = master_stack::slice_height(area.h, count - 1);
    assert(0 <= (k - 1) * s <= (count - 2) * s) by (nonlinear_arith)
        requires
            1 <= k < count,
            s >= 0,
    ;
    assert(s * (count - 2) == (count - 2) * s && (count - 2) * s == s * (count - 1) - s)
        by (nonlinear_arith);
    if k < count - 1 {
        assert((k - 1) * s + s <= (count - 2) * s) by (nonlinear_arith)
            requires
                1 <= k < count - 1,
                s >= 0,
        ;
    }
}

proof fn lemma_cell_inside(layout: MasterStack, area: Rect, count: int, k: int)
    requires
        count >= 1,
        0 <= k < count,
        layout.cells_fit(count as nat, area),
    ensures
        master_stack::cell(layout.ratio(), area, count, k).inside(area),
{
    lemma_master_width_bounds(layout.ratio(), area.w);
    if count > 1 && k > 0 {
        lemma_stack_cell(layout, area, count, k);
    }
}

proof fn lemma_shrunk_inside(gaps: u16, c: Rect)
    ensures
        master_stack::shrunk(gaps, c).inside(c),
{
}

proof fn lemma_cells_disjoint(layout: MasterStack, area: Rect, count: int, i: int, j: int)
    requires
        0 <= i < j < count,
        layout.cells_fit(count as nat, area),
    ensures
        master_stack::cell(layout.ratio(), area, count, i).disjoint(master_stack::cell(layout.ratio(), area, count, j)),
{
    lemma_master_width_bounds(layout.ratio(), area.w);
    lemma_stack_cell(layout, area, count, j);
    if i > 0 {
        lemma_stack_cell(layout, area, count, i);
        let s = master_stack::slice_height(area.h, count - 1);
        assert((i - 1) * s + s <= (j - 1) * s) by (nonlinear_arith)
            requires
                1 <= i < j,
                s >= 0,
        ;
    }
}

/// One placement per window: the placed windows are exactly the given ones,
/// each as often as it was given.
pub proof fn law_one_placement_per_window(
    layout: MasterStack,
    windows: Seq<WindowId>,
    area: Rect,
    focus: int,
)
    requires
        focus >= 0,
    ensures
        layout.arranged(windows, area, focus).map_values(|p: Placement| p.window).to_multiset()
            == windows.to_multiset(),
{
    let placed = layout.arranged(windows, area, focus).map_values(|p: Placement| p.window);
    if windows.len() == 0 {
        assert(placed =~= windows);
    } else {
        let m = master_stack::master_index(windows, focus);
        let seats = master_stack::seating(windows, focus);
        assert(placed =~= seats);
        let rest = windows.remove(m);
        broadcast use vstd::seq_lib::group_to_multiset_ensures;

        assert(windows =~= rest.insert(m, windows[m]));
        vstd::seq_lib::lemma_multiset_commutative(seq![windows[m]], rest);
        assert(seats.to_multiset() =~= seq![windows[m]].to_multiset().add(rest.to_multiset()));
        assert(seq![windows[m]] =~= Seq::<WindowId>::empty().push(windows[m]));
        assert(windows.remove(m).to_multiset() =~= windows.to_multiset().remove(windows[m]));
        assert(windows.contains(windows[m]));
        assert(seats.to_multiset() =~= windows.to_multiset());
    }
}

/// The focused window, or the first one when the index is stale, is the
/// master: it takes the first cell, and a lone window the whole area.
pub proof fn law_focus_selects_the_master(
    layout: MasterStack,
    windows: Seq<WindowId>,
    area: Rect,
    focus: int,
)
    requires
        windows.len() > 0,
        focus >= 0,
    ensures
        ({
            let master = layout.arranged(windows, area, focus)[0];
            let index = if focus < windows.len() {
                focus
            } else {
                0
            };
            &&& master.window == windows[index]
            &&& windows.len() == 1 ==> master.rect == master_stack::shrunk(layout.gaps(), area)
            &&& windows.len() > 1 ==> master.rect == master_stack::shrunk(
                layout.gaps(),
                Rect { w: master_stack::master_width(layout.ratio(), area.w) as u16, ..area },
            )
        }),
{
    assert(layout.arranged(windows, area, focus)[0].window == master_stack::seating(
        windows,
        focus,
    )[0]);
}

/// No placement pokes out of the area, whatever the gaps.
pub proof fn law_placements_stay_inside(
    layout: MasterStack,
    windows: Seq<WindowId>,
    area: Rect,
    focus: int,
    k: int,
)
    requires
        layout.cells_fit(windows.len(), area),
        0 <= k < windows.len(),
    ensures
        layout.arranged(windows, area, focus)[k].rect.inside(area),
{
    lemma_cell_inside(layout, area, windows.len() as int, k);
    lemma_shrunk_inside(layout.gaps(), master_stack::cell(layout.ratio(), area, windows.len() as int, k));
}

/// No two placements share a pixel.
pub proof fn law_placements_are_disjoint(
    layout: MasterStack,
    windows: Seq<WindowId>,
    area: Rect,
    focus: int,
    i: int,
    j: int,
)
    requires
        layout.cells_fit(windows.len(), area),
        0 <= i < j < windows.len(),
    ensures
        layout.arranged(windows, area, focus)[i].rect.disjoint(
            layout.arranged(windows, area, focus)[j].rect,
        ),
{
    let n = windows.len() as int;
    let a = master_stack::cell(layout.ratio(), area, n, i);
    let b = master_stack::cell(layout.ratio(), area, n, j);
    lemma_cells_disjoint(layout, area, n, i, j);
    lemma_shrunk_inside(layout.gaps(), a);
    lemma_shrunk_inside(layout.gaps(), b);
    let p = master_stack::shrunk(layout.gaps(), a);
    let q = master_stack::shrunk(layout.gaps(), b);
    assert forall|px: int, py: int| !(p.covers(px, py) && #[trigger] q.covers(px, py)) by {
        if p.covers(px, py) && q.covers(px, py) {
            assert(a.covers(px, py));
            assert(b.covers(px, py));
        }
    }
}

/// Without gaps the placements cover the whole area: every pixel of it
/// belongs to some placement (and by disjointness to one only).
pub proof fn law_placements_cover_the_area(
    layout: MasterStack,
    windows: Seq<WindowId>,
    area: Rect,
    focus: int,
    px: int,
    py: int,
)
    requires
        layout.gaps() == 0,
        windows.len() > 0,
        area.fits(),
        area.covers(px, py),
    ensures
        exists|k: int|
            0 <= k < windows.len() && (#[trigger] layout.arranged(
                windows,
                area,
                focus,
            )[k]).rect.covers(px, py),
{
    let n = windows.len() as int;
    let placed = layout.arranged(windows, area, focus);
    let mw = master_stack::master_width(layout.ratio(), area.w);
    lemma_master_width_bounds(layout.ratio(), area.w);
    if n == 1 {
        assert(placed[0].rect == area);
    } else {
        let s = master_stack::slice_height(area.h, n - 1);
        lemma_slice_bounds(area.h, n - 1);
        lemma_area_fits(layout, n as nat, area);
        if px < area.x + mw {
            assert(placed[0].rect == master_stack::cell(layout.ratio(), area, n, 0));
        } else {
            let down = py - area.y;
            let row = if s > 0 && down / s < n - 2 {
                down / s
            } else {
                n - 2
            };
            assert(s > 0 ==> (down / s) * s <= down < (down / s) * s + s && down / s >= 0)
                by (nonlinear_arith)
                requires
                    down >= 0,
            ;
            if row == n - 2 {
                if s > 0 {
                    assert((n - 2) * s <= (down / s) * s) by (nonlinear_arith)
                        requires
                            n - 2 <= down / s,
                            s > 0,
                    ;
                } else {
                    assert((n - 2) * s == 0) by (nonlinear_arith)
                        requires
                            s == 0,
                    ;
                }
            }
            lemma_stack_cell(layout, area, n, row + 1);
            assert(placed[row + 1].rect == master_stack::cell(layout.ratio(), area, n, row + 1));
        }
    }
}

/// Neighbours stand twice the gap apart, and a window against the edge of the
/// area keeps one gap from it: across, the master and every stack window;
/// down, the stack windows one below the other.
pub proof fn law_gaps_between_and_at_the_edges(
    layout: MasterStack,
    windows: Seq<WindowId>,
    area: Rect,
    focus: int,
    k: int,
)
    requires
        area.fits(),
        1 <= k < windows.len(),
        geometry::visible(layout.arranged(windows, area, focus)[0]),
        geometry::visible(layout.arranged(windows, area, focus)[k]),
    ensures
        ({
            let placed = layout.arranged(windows, area, focus);
            let g = layout.gaps();
            let master = placed[0].rect;
            let slice = placed[k].rect;
            &&& master.x == area.x + g
            &&& master.y == area.y + g
            &&& master.bottom() == area.bottom() - g
            &&& slice.x == master.right() + 2 * g
            &&& slice.right() == area.right() - g
            &&& k == 1 ==> slice.y == area.y + g
            &&& k == windows.len() - 1 ==> slice.bottom() == area.bottom() - g
            &&& k > 1 && geometry::visible(placed[k - 1]) ==> slice.y
                == placed[k - 1].rect.bottom() + 2 * g
        }),
{
    let n = windows.len() as int;
    lemma_master_width_bounds(layout.ratio(), area.w);
    lemma_area_fits(layout, n as nat, area);
    lemma_stack_cell(layout, area, n, k);
    if k > 1 {
        lemma_stack_cell(layout, area, n, k - 1);
        let s = master_stack::slice_height(area.h, n - 1);
        assert((k - 1) * s == (k - 2) * s + s) by (nonlinear_arith);
    } else {
        let s = master_stack::slice_height(area.h, n - 1);
        assert((k - 1) * s == 0) by (nonlinear_arith)
            requires
                k == 1,
        ;
    }
}

/// The `k`-th stack placement lies wholly to the right of the master.
proof fn lemma_stack_right_of_master(
    layout: MasterStack,
    windows: Seq<WindowId>,
    area: Rect,
    focus: int,
    k: int,
)
    requires
        area.fits(),
        1 <= k < windows.len(),
    ensures
        ({
            let placed = layout.arranged(windows, area, focus);
            let split = area.x + master_stack::master_width(layout.ratio(), area.w);
            &&& placed[0].rect.x <= split
            &&& placed[0].rect.right() <= split
            &&& split <= placed[k].rect.x
        }),
{
    let n = windows.len() as int;
    lemma_master_width_bounds(layout.ratio(), area.w);
    lemma_area_fits(layout, n as nat, area);
    lemma_stack_cell(layout, area, n, k);
    lemma_shrunk_inside(layout.gaps(), master_stack::cell(layout.ratio(), area, n, 0));
}

/// Where a focus move from the master can go: never up, down or left, since
/// the stack stands to its right; to the right it reaches the top of the
/// stack.
pub proof fn law_moves_from_the_master(
    layout: MasterStack,
    windows: Seq<WindowId>,
    area: Rect,
    focus: int,
    dir: Direction,
    r: Option<WindowId>,
)
    requires
        area.fits(),
        focus >= 0,
        windows.len() > 0,
        windows.no_duplicates(),
        geometry::is_neighbour(
            layout.arranged(windows, area, focus),
            master_stack::seating(windows, focus)[0],
            dir,
            r,
        ),
    ensures
        dir != Direction::Right ==> r is None,
        dir == Direction::Right && windows.len() > 1 && geometry::visible(
            layout.arranged(windows, area, focus)[0],
        ) && geometry::visible(layout.arranged(windows, area, focus)[1]) ==> r == Some(
            master_stack::seating(windows, focus)[1],
        ),
        windows.len() == 1 ==> r is None,
{
    let n = windows.len() as int;
    let placed = layout.arranged(windows, area, focus);
    let seats = master_stack::seating(windows, focus);
    let f = placed[0];
    assert(f.window == seats[0]);
    geometry::lemma_placement_of_first(placed, seats[0], 0);
    assert forall|c: Placement| #[trigger]
        placed.contains(c) && geometry::admitted(f, c, dir) implies dir == Direction::Right by {
        let k = choose|k: int| 0 <= k < placed.len() && placed[k] == c;
        assert(k != 0);
        lemma_stack_right_of_master(layout, windows, area, focus, k);
    }
    if dir == Direction::Right && n > 1 && geometry::visible(f) && geometry::visible(placed[1]) {
        let top = placed[1];
        let m = master_stack::master_index(windows, focus);
        assert(seats[1] == windows.remove(m)[0]);
        assert(top.window == seats[1]);
        assert(seats[1] != seats[0]);
        law_gaps_between_and_at_the_edges(layout, windows, area, focus, 1);
        lemma_area_fits(layout, n as nat, area);
        lemma_stack_cell(layout, area, n, 1);
        lemma_slice_bounds(area.h, n - 1);
        assert(placed.contains(top));
        assert(geometry::admitted(f, top, dir));
        assert forall|c: Placement| #[trigger]
            placed.contains(c) && geometry::admitted(f, c, dir) && c != top implies
            !geometry::ranks_before(f, c, top, dir) by {
            let k = choose|k: int| 0 <= k < placed.len() && placed[k] == c;
            assert(k >= 2);
            law_gaps_between_and_at_the_edges(layout, windows, area, focus, k);
            lemma_stack_cell(layout, area, n, k);
            let s = master_stack::slice_height(area.h, n - 1);
            assert((k - 1) * s >= s) by (nonlinear_arith)
                requires
                    k >= 2,
                    s >= 0,
            ;
        }
        if let Some(w) = r {
            let c = choose|c: Placement| #[trigger]
                geometry::best_candidate(placed, f, dir, c) && c.window == w;
            assert(geometry::ranks_before(f, c, top, dir));
        }
    }
}

/// An area whose far corner fits an `i32` can be cut for any number of
/// windows.
pub proof fn lemma_area_fits(layout: MasterStack, count: nat, area: Rect)
    requires
        area.fits(),
    ensures
        layout.cells_fit(count, area),
{
    lemma_master_width_bounds(layout.ratio(), area.w);
    if count > 1 {
        let s = master_stack::slice_height(area.h, count - 1);
        lemma_slice_bounds(area.h, count - 1);
        assert((count - 2) * s <= s * (count - 1)) by (nonlinear_arith)
            requires
                s >= 0,
                count > 1,
        ;
    }
}

} // verus!
