//! Master-stack layout: the focused window occupies a master area on the left
//! at a configurable ratio; the remaining windows tile vertically in a stack
//! on the right.
use vstd::prelude::*;
use crate::geometry::{Placement, Rect, WindowId};
use crate::layout::Layout;

verus! {

/// Master ratio every layout is built with (one half), in thousandths of the
/// area width: the config has no `ratio` key.
pub const DEFAULT_MASTER_RATIO: u32 = 500;

/// Master-stack layout with a configurable master ratio, frame border and gap.
pub struct MasterStack {
    /// In thousandths of the area width.
    ratio: u32,
    border: u16,
    gaps: u16,
}

/// `ratio` thousandths of `w`, rounded to the nearest pixel (halves up).
pub open spec fn rounded_share(ratio: u32, w: u16) -> int {
    (2 * (w * ratio) + 1000) / 2000
}

/// Width of the master cell when a stack exists.
pub open spec fn master_width(ratio: u32, w: u16) -> int {
    if rounded_share(ratio, w) < w {
        rounded_share(ratio, w)
    } else {
        w as int
    }
}

/// Height of every stack slice but the last, for a stack of `stack_n` windows.
pub open spec fn slice_height(h: u16, stack_n: int) -> int {
    h as int / stack_n
}

/// The cell of the `k`-th placement of `count`: the master first, then the
/// stack from top to bottom. The last stack cell absorbs the remainder.
pub open spec fn cell(ratio: u32, area: Rect, count: int, k: int) -> Rect {
    if count == 1 {
        area
    } else if k == 0 {
        Rect { x: area.x, y: area.y, w: master_width(ratio, area.w) as u16, h: area.h }
    } else {
        let slice = slice_height(area.h, count - 1);
        Rect {
            x: (area.x + master_width(ratio, area.w)) as i32,
            y: (area.y + (k - 1) * slice) as i32,
            w: (area.w - master_width(ratio, area.w)) as u16,
            h: (if k == count - 1 {
                area.h - slice * (count - 2)
            } else {
                slice
            }) as u16,
        }
    }
}

pub open spec fn smaller(a: int, b: int) -> int {
    if a <= b {
        a
    } else {
        b
    }
}

pub open spec fn larger(a: int, b: int) -> int {
    if a >= b {
        a
    } else {
        b
    }
}

/// `cell` shrunk by `gaps` on every side, clamped to zero size; the origin
/// moves by no more than the cell's own size.
pub open spec fn shrunk(gaps: u16, cell: Rect) -> Rect {
    Rect {
        x: smaller(cell.x + smaller(gaps as int, cell.w as int), i32::MAX as int) as i32,
        y: smaller(cell.y + smaller(gaps as int, cell.h as int), i32::MAX as int) as i32,
        w: larger(cell.w - 2 * gaps, 0) as u16,
        h: larger(cell.h - 2 * gaps, 0) as u16,
    }
}

/// The index of the master window: `focus`, or 0 when it is out of range.
pub open spec fn master_index(windows: Seq<WindowId>, focus: int) -> int {
    if focus < windows.len() {
        focus
    } else {
        0
    }
}

/// The windows in placement order: the master, then the others as listed.
pub open spec fn seating(windows: Seq<WindowId>, focus: int) -> Seq<WindowId> {
    let m = master_index(windows, focus);
    seq![windows[m]] + windows.remove(m)
}

impl MasterStack {
    pub closed spec fn ratio(self) -> u32 {
        self.ratio
    }

    pub closed spec fn border(self) -> u16 {
        self.border
    }

    pub closed spec fn gaps(self) -> u16 {
        self.gaps
    }

    /// Creates a master-stack layout with the given master `ratio` (in
    /// thousandths, default one half), `border` width recorded in every placement and `gaps`
    /// shrinking every cell.
    pub fn new(ratio: u32, border: u16, gaps: u16) -> (r: Self)
        ensures
            r.ratio() == ratio,
            r.border() == border,
            r.gaps() == gaps,
    {
        MasterStack { ratio, border, gaps }
    }

    /// The placement of the `k`-th seat of `count`.
    pub open spec fn seat(self, area: Rect, count: int, k: int, window: WindowId) -> Placement {
        Placement {
            window,
            rect: shrunk(self.gaps(), cell(self.ratio(), area, count, k)),
            border: self.border(),
        }
    }

    /// Width of the master cell of an area `w` wide.
    fn split(&self, w: u16) -> (r: u16)
        ensures
            r == master_width(self.ratio(), w),
    {
        let ratio: u64 = self.ratio as u64;
        assert(0 <= w * ratio <= 0xffff * 0xffff_ffff) by (nonlinear_arith)
            requires
                w <= 0xffff,
                ratio <= 0xffff_ffff,
        ;
        let share: u64 = (2 * (w as u64 * ratio) + 1000) / 2000;
        if share < w as u64 {
            share as u16
        } else {
            w
        }
    }

    /// Shrinks a layout cell into the placement footprint by applying `gaps`
    /// on every side, clamped to zero size.
    ///
    /// The border is not subtracted here: `Placement::rect` is the outer box
    /// the window occupies, border included. Adjacent cells share an edge, so
    /// two neighbouring windows stand `2 * gaps` apart while a window against
    /// the screen edge keeps a single `gaps` margin.
    fn gapped(&self, cell: Rect) -> (r: Rect)
        ensures
            r == shrunk(self.gaps(), cell),
    {
        let g: i64 = self.gaps as i64;
        let dx: i64 = if g <= cell.w as i64 { g } else { cell.w as i64 };
        let dy: i64 = if g <= cell.h as i64 { g } else { cell.h as i64 };
        let x: i64 = cell.x as i64 + dx;
        let y: i64 = cell.y as i64 + dy;
        let w: i64 = cell.w as i64 - 2 * g;
        let h: i64 = cell.h as i64 - 2 * g;
        Rect {
            x: if x <= i32::MAX as i64 { x as i32 } else { i32::MAX },
            y: if y <= i32::MAX as i64 { y as i32 } else { i32::MAX },
            w: if w >= 0 { w as u16 } else { 0 },
            h: if h >= 0 { h as u16 } else { 0 },
        }
    }
}

impl Default for MasterStack {
    /// Default master ratio one half, border 2 and gaps 3: the config
    /// defaults.
    fn default() -> (r: Self)
        ensures
            r.ratio() == DEFAULT_MASTER_RATIO,
            r.border() == 2,
            r.gaps() == 3,
    {
        MasterStack::new(DEFAULT_MASTER_RATIO, 2, 3)
    }
}

impl Layout for MasterStack {
    open spec fn label(&self) -> Seq<char> {
        "master-stack"@
    }

    open spec fn cells_fit(&self, count: nat, area: Rect) -> bool {
        count > 1 ==> {
            &&& area.x + master_width(self.ratio(), area.w) <= i32::MAX
            &&& area.y + (count - 2) * slice_height(area.h, count - 1) <= i32::MAX
        }
    }

    open spec fn arranged(&self, windows: Seq<WindowId>, area: Rect, focus: int) -> Seq<Placement> {
        if windows.len() == 0 {
            Seq::empty()
        } else {
            Seq::new(
                windows.len(),
                |k: int|
                    self.seat(area, windows.len() as int, k, seating(windows, focus)[k]),
            )
        }
    }

    fn name(&self) -> (r: &'static str) {
        "master-stack"
    }

    /// Partitions `area` into cells that tile it exactly and contiguously
    /// (master on the left, stack slices on the right) and emits each cell
    /// shrunk by `gaps` as the window's outer footprint.
    fn arrange(&self, windows: &[WindowId], area: Rect, focus: usize) -> (out: Vec<Placement>) {
        if windows.len() == 0 {
            return Vec::new();
        }
        let ghost seats = seating(windows@, focus as int);
        let master: usize = if focus < windows.len() { focus } else { 0 };
        let count: usize = windows.len();
        // A lone window spans the full area; the ratio only shapes the master
        // when a stack exists.
        let master_w: u16 = if count > 1 { self.split(area.w) } else { area.w };
        let mut out: Vec<Placement> = Vec::with_capacity(count);
        let master_cell = Rect { x: area.x, y: area.y, w: master_w, h: area.h };
        out.push(
            Placement {
                window: windows[master],
                rect: self.gapped(master_cell),
                border: self.border,
            },
        );
        let stack_n: usize = count - 1;
        if stack_n == 0 {
            assert(out@ =~= self.arranged(windows@, area, focus as int));
            return out;
        }
        let stack_w: u16 = area.w - master_w;
        let stack_x: i32 = area.x + master_w as i32;
        let slice: usize = area.h as usize / stack_n;
        assert(slice == slice_height(area.h, stack_n as int));
        assert(0 <= slice <= area.h) by (nonlinear_arith)
            requires
                slice == area.h as int / stack_n as int,
                stack_n > 0,
        ;
        assert(slice * stack_n <= area.h) by (nonlinear_arith)
            requires
                slice == area.h as int / stack_n as int,
                stack_n > 0,
        ;
        let mut i: usize = 0;
        let mut idx: usize = 0;
        while i < count
            invariant
                self.cells_fit(count as nat, area),
                count == windows@.len(),
                count > 1,
                stack_n == count - 1,
                master == master_index(windows@, focus as int),
                0 <= master < count,
                seats == seating(windows@, focus as int),
                slice == slice_height(area.h, stack_n as int),
                0 <= slice <= area.h,
                slice * stack_n <= area.h,
                master_w == master_width(self.ratio(), area.w),
                stack_w == area.w - master_w,
                stack_x == area.x + master_w,
                i <= count,
                idx == (if i <= master {
                    i as int
                } else {
                    i - 1
                }),
                out@.len() == idx + 1,
                forall|k: int|
                    0 <= k < out@.len() ==> #[trigger] out@[k] == self.seat(
                        area,
                        count as int,
                        k,
                        seats[k],
                    ),
            decreases count - i,
        {
            if i != master {
                assert(idx < stack_n);
                assert(idx * slice + slice <= slice * stack_n) by (nonlinear_arith)
                    requires
                        idx < stack_n,
                        slice >= 0,
                ;
                assert(idx * slice <= (stack_n - 1) * slice) by (nonlinear_arith)
                    requires
                        idx < stack_n,
                        slice >= 0,
                ;
                assert(slice * (stack_n - 1) == (stack_n - 1) * slice && slice * (stack_n - 1)
                    == slice * stack_n - slice && (stack_n - 1) * slice >= 0) by (nonlinear_arith)
                    requires
                        slice >= 0,
                        stack_n >= 1,
                ;
                // The last stack window absorbs the remainder so the stack
                // covers its column fully.
                let h: u16 = if idx == stack_n - 1 {
                    (area.h as usize - slice * (stack_n - 1)) as u16
                } else {
                    slice as u16
                };
                let top: i64 = area.y as i64 + (idx * slice) as i64;
                let c = Rect { x: stack_x, y: top as i32, w: stack_w, h };
                assert(idx == idx + 1 - 1);
                assert(c == cell(self.ratio(), area, count as int, idx + 1));
                assert(seats[idx + 1] == windows@[i as int]);
                out.push(
                    Placement { window: windows[i], rect: self.gapped(c), border: self.border },
                );
                idx = idx + 1;
            }
            i = i + 1;
        }
        assert(out@ =~= self.arranged(windows@, area, focus as int));
        out
    }
}

} // verus!
