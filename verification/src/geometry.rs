//! Core geometry and window/workspace identifiers.
use vstd::prelude::*;

verus! {

/// Identifier of an X11 window (client or frame).
pub type WindowId = u32;

/// Identifier of a workspace (1-based, `_NET_NUMBER_OF_DESKTOPS`-compatible).
pub type WorkspaceId = u32;

/// Axis-aligned rectangle in root-window coordinates.
#[derive(Debug, Clone, Copy, PartialEq, Eq, Structural)]
pub struct Rect {
    pub x: i32,
    pub y: i32,
    pub w: u16,
    pub h: u16,
}

impl Rect {
    /// The x coordinate one past the rightmost column.
    pub open spec fn right(self) -> int {
        self.x + self.w
    }

    /// The y coordinate one past the bottom row.
    pub open spec fn bottom(self) -> int {
        self.y + self.h
    }

    /// Whether the pixel at (`px`, `py`) belongs to the rectangle.
    pub open spec fn covers(self, px: int, py: int) -> bool {
        self.x <= px < self.right() && self.y <= py < self.bottom()
    }

    /// Whether every pixel of `self`, and its origin corner, lies in `outer`.
    pub open spec fn inside(self, outer: Rect) -> bool {
        &&& outer.x <= self.x
        &&& self.right() <= outer.right()
        &&& outer.y <= self.y
        &&& self.bottom() <= outer.bottom()
    }

    /// Whether the two rectangles share no pixel.
    pub open spec fn disjoint(self, other: Rect) -> bool {
        forall|px: int, py: int| !(self.covers(px, py) && #[trigger] other.covers(px, py))
    }

    /// Whether the far corner has coordinates that an `i32` can hold.
    pub open spec fn fits(self) -> bool {
        self.right() <= i32::MAX && self.bottom() <= i32::MAX
    }
}

/// Placement of one window inside a layout area, including its frame border.
#[derive(Debug, Clone, Copy, PartialEq, Eq, Structural)]
pub struct Placement {
    pub window: WindowId,
    pub rect: Rect,
    pub border: u16,
}

/// Layout algorithms supported by the core.
#[derive(Debug, Clone, Copy, PartialEq, Eq, Structural)]
pub enum LayoutKind {
    MasterStack,
}

/// Direction of a geometric focus move. Screen axes: `Left` is -x, `Up` is -y.
#[derive(Debug, Clone, Copy, PartialEq, Eq, Structural)]
pub enum Direction {
    Left,
    Down,
    Up,
    Right,
}

/// A placement is visible when both dimensions are non-zero.
pub open spec fn visible(p: Placement) -> bool {
    p.rect.w > 0 && p.rect.h > 0
}

/// The first placement of window `w` in `ps`.
pub open spec fn placement_of(ps: Seq<Placement>, w: WindowId) -> Option<Placement>
    decreases ps.len(),
{
    if ps.len() == 0 {
        None
    } else if placement_of(ps.drop_last(), w) is Some {
        placement_of(ps.drop_last(), w)
    } else if ps.last().window == w {
        Some(ps.last())
    } else {
        None
    }
}

/// How far `c` starts beyond the edge of `f` that faces `dir`; negative when
/// `c` reaches back over that edge.
pub open spec fn edge_gap(f: Rect, c: Rect, dir: Direction) -> int {
    match dir {
        Direction::Right => c.x - f.right(),
        Direction::Left => f.x - c.right(),
        Direction::Down => c.y - f.bottom(),
        Direction::Up => f.y - c.bottom(),
    }
}

/// Where `c` starts on the axis across `dir`: its top for a horizontal move,
/// its left for a vertical one.
pub open spec fn reading_start(c: Rect, dir: Direction) -> int {
    match dir {
        Direction::Right | Direction::Left => c.y as int,
        Direction::Down | Direction::Up => c.x as int,
    }
}

/// Whether `f` and `c` share a row (horizontal move) or a column (vertical one).
pub open spec fn shares_lane(f: Rect, c: Rect, dir: Direction) -> bool {
    match dir {
        Direction::Right | Direction::Left => f.y < c.bottom() && c.y < f.bottom(),
        Direction::Down | Direction::Up => f.x < c.right() && c.x < f.right(),
    }
}

/// Whether focus may move from `f` to `c` in `dir`.
pub open spec fn admitted(f: Placement, c: Placement, dir: Direction) -> bool {
    &&& c.window != f.window
    &&& visible(c)
    &&& edge_gap(f.rect, c.rect, dir) >= 0
    &&& shares_lane(f.rect, c.rect, dir)
}

/// Whether `a` ranks no later than `b` seen from `f`: nearest edge first, then
/// topmost/leftmost, then the smaller window id.
pub open spec fn ranks_before(f: Placement, a: Placement, b: Placement, dir: Direction) -> bool {
    let ga = edge_gap(f.rect, a.rect, dir);
    let gb = edge_gap(f.rect, b.rect, dir);
    let sa = reading_start(a.rect, dir);
    let sb = reading_start(b.rect, dir);
    ga < gb || (ga == gb && (sa < sb || (sa == sb && a.window <= b.window)))
}

/// `c` is an admitted candidate of `ps` that no other candidate outranks.
pub open spec fn best_candidate(
    ps: Seq<Placement>,
    f: Placement,
    dir: Direction,
    c: Placement,
) -> bool {
    &&& ps.contains(c)
    &&& admitted(f, c, dir)
    &&& forall|o: Placement|
        #[trigger] ps.contains(o) && admitted(f, o, dir) ==> ranks_before(f, c, o, dir)
}

/// Whether `r` is the answer of a focus move from `focused` in `dir`: the
/// window of the best candidate, or `None` when `focused` has no visible
/// placement or nothing is admitted.
pub open spec fn is_neighbour(
    ps: Seq<Placement>,
    focused: WindowId,
    dir: Direction,
    r: Option<WindowId>,
) -> bool {
    match placement_of(ps, focused) {
        None => r is None,
        Some(f) => if !visible(f) {
            r is None
        } else {
            match r {
                None => forall|c: Placement| #[trigger]
                    ps.contains(c) ==> !admitted(f, c, dir),
                Some(w) => exists|c: Placement| #[trigger]
                    best_candidate(ps, f, dir, c) && c.window == w,
            }
        },
    }
}

fn is_visible(p: &Placement) -> (r: bool)
    ensures
        r == visible(*p),
{
    p.rect.w > 0 && p.rect.h > 0
}

/// `(left, right, top, bottom)` edges of `r`, widened to `i64`.
fn edges(r: Rect) -> (e: (i64, i64, i64, i64))
    ensures
        e.0 == r.x,
        e.1 == r.right(),
        e.2 == r.y,
        e.3 == r.bottom(),
{
    let l: i64 = r.x as i64;
    let t: i64 = r.y as i64;
    (l, l + r.w as i64, t, t + r.h as i64)
}

/// The rank `(gap, perpendicular start)` of candidate `c` seen from `f`, or
/// `None` when the move is not admitted.
fn rank(f: Rect, c: Rect, dir: Direction) -> (r: Option<(i64, i64)>)
    requires
        f.w > 0 && f.h > 0,
        c.w > 0 && c.h > 0,
    ensures
        r is Some <==> edge_gap(f, c, dir) >= 0 && shares_lane(f, c, dir),
        r matches Some(k) ==> k.0 == edge_gap(f, c, dir) && k.1 == reading_start(c, dir),
{
    let (fl, fr, ft, fb) = edges(f);
    let (cl, cr, ct, cb) = edges(c);
    let (gap, start, lane) = match dir {
        Direction::Right => (cl - fr, ct, ft < cb && ct < fb),
        Direction::Left => (fl - cr, ct, ft < cb && ct < fb),
        Direction::Down => (ct - fb, cl, fl < cr && cl < fr),
        Direction::Up => (ft - cb, cl, fl < cr && cl < fr),
    };
    if gap >= 0 && lane {
        Some((gap, start))
    } else {
        None
    }
}

proof fn lemma_placement_of_skips(ps: Seq<Placement>, w: WindowId)
    requires
        forall|i: int| 0 <= i < ps.len() ==> (#[trigger] ps[i]).window != w,
    ensures
        placement_of(ps, w) is None,
    decreases ps.len(),
{
    if ps.len() > 0 {
        let front = ps.drop_last();
        assert forall|i: int| 0 <= i < front.len() implies (#[trigger] front[i]).window != w by {
            assert(front[i] == ps[i]);
        }
        lemma_placement_of_skips(front, w);
    }
}

pub(crate) proof fn lemma_placement_of_first(ps: Seq<Placement>, w: WindowId, at: int)
    requires
        0 <= at < ps.len(),
        ps[at].window == w,
        forall|i: int| 0 <= i < at ==> (#[trigger] ps[i]).window != w,
    ensures
        placement_of(ps, w) == Some(ps[at]),
    decreases ps.len(),
{
    let front = ps.drop_last();
    if at == ps.len() - 1 {
        assert forall|i: int| 0 <= i < front.len() implies (#[trigger] front[i]).window != w by {
            assert(front[i] == ps[i]);
        }
        lemma_placement_of_skips(front, w);
    } else {
        assert forall|i: int| 0 <= i < at implies (#[trigger] front[i]).window != w by {
            assert(front[i] == ps[i]);
        }
        assert(front[at] == ps[at]);
        lemma_placement_of_first(front, w, at);
    }
}

proof fn lemma_placement_of_member(ps: Seq<Placement>, w: WindowId)
    ensures
        placement_of(ps, w) matches Some(p) ==> ps.contains(p) && p.window == w,
        placement_of(ps, w) is None ==> forall|p: Placement| #[trigger]
            ps.contains(p) ==> p.window != w,
    decreases ps.len(),
{
    if ps.len() > 0 {
        let front = ps.drop_last();
        lemma_placement_of_member(front, w);
        if let Some(p) = placement_of(front, w) {
            let i = choose|i: int| 0 <= i < front.len() && front[i] == p;
            assert(ps[i] == p);
        } else {
            assert(ps[ps.len() - 1] == ps.last());
            assert forall|p: Placement| #[trigger]
                ps.contains(p) && placement_of(ps, w) is None implies p.window != w by {
                let i = choose|i: int| 0 <= i < ps.len() && ps[i] == p;
                if i < ps.len() - 1 {
                    assert(front[i] == p);
                    assert(front.contains(p));
                }
            }
        }
    }
}

fn find_placement(placements: &[Placement], w: WindowId) -> (r: Option<Placement>)
    ensures
        r == placement_of(placements@, w),
{
    let mut i: usize = 0;
    while i < placements.len()
        invariant
            i <= placements.len(),
            forall|j: int| 0 <= j < i ==> (#[trigger] placements@[j]).window != w,
        decreases placements.len() - i,
    {
        if placements[i].window == w {
            proof {
                lemma_placement_of_first(placements@, w, i as int);
            }
            return Some(placements[i]);
        }
        i = i + 1;
    }
    proof {
        lemma_placement_of_skips(placements@, w);
    }
    None
}

/// The window geometrically adjacent to `focused` in `dir`, or `None` when no
/// candidate qualifies (the caller then changes nothing: focus never wraps).
///
/// Admission asks for a non-negative gap between the facing edges and a
/// shared row or column; ranking is by nearest edge, then reading order, then
/// window id. How MUCH two windows overlap never ranks: the last stack slice
/// absorbs the division remainder, so such a rank would flip with the parity
/// of the area height.
pub fn resolve_direction(
    placements: &[Placement],
    focused: WindowId,
    dir: Direction,
) -> (r: Option<WindowId>)
    ensures
        is_neighbour(placements@, focused, dir, r),
{
    let f = match find_placement(placements, focused) {
        Some(f) => f,
        None => return None,
    };
    proof {
        lemma_placement_of_member(placements@, focused);
    }
    if !is_visible(&f) {
        return None;
    }
    let ghost ps = placements@;
    let mut best: Option<Placement> = None;
    let mut best_rank: (i64, i64) = (0, 0);
    let mut i: usize = 0;
    while i < placements.len()
        invariant
            ps == placements@,
            i <= placements.len(),
            visible(f),
            f.window == focused,
            best is None ==> forall|j: int|
                0 <= j < i ==> !admitted(f, #[trigger] ps[j], dir),
            best matches Some(b) ==> ps.contains(b) && admitted(f, b, dir) && best_rank.0
                == edge_gap(f.rect, b.rect, dir) && best_rank.1 == reading_start(b.rect, dir) && (
            forall|j: int|
                0 <= j < i && admitted(f, #[trigger] ps[j], dir) ==> ranks_before(f, b, ps[j], dir)),
        decreases placements.len() - i,
    {
        let c = placements[i];
        assert(ps[i as int] == c);
        assert(ps.contains(c));
        if c.window != focused && is_visible(&c) {
            if let Some((gap, start)) = rank(f.rect, c.rect, dir) {
                let better = match best {
                    None => true,
                    Some(b) => gap < best_rank.0 || (gap == best_rank.0 && (start < best_rank.1 || (
                    start == best_rank.1 && c.window < b.window))),
                };
                if better {
                    best = Some(c);
                    best_rank = (gap, start);
                }
            }
        }
        i = i + 1;
    }
    match best {
        Some(b) => {
            proof {
                assert forall|o: Placement| #[trigger]
                    ps.contains(o) && admitted(f, o, dir) implies ranks_before(f, b, o, dir) by {
                    let j = choose|j: int| 0 <= j < ps.len() && ps[j] == o;
                    assert(admitted(f, ps[j], dir));
                }
                assert(best_candidate(ps, f, dir, b));
            }
            Some(b.window)
        },
        None => {
            proof {
                assert forall|c: Placement| #[trigger] ps.contains(c) implies !admitted(
                    f,
                    c,
                    dir,
                ) by {
                    let j = choose|j: int| 0 <= j < ps.len() && ps[j] == c;
                    assert(!admitted(f, ps[j], dir));
                }
            }
            None
        },
    }
}

/// Whether every window has at most one placement in `ps`.
pub open spec fn distinct_windows(ps: Seq<Placement>) -> bool {
    forall|i: int, j: int|
        0 <= i < j < ps.len() ==> (#[trigger] ps[i]).window != (#[trigger] ps[j]).window
}

/// A focus move has exactly one answer, and the order in which the placements
/// are listed does not change it.
pub proof fn law_direction_ignores_order(
    ps: Seq<Placement>,
    qs: Seq<Placement>,
    focused: WindowId,
    dir: Direction,
    r: Option<WindowId>,
    s: Option<WindowId>,
)
    requires
        ps.to_multiset() == qs.to_multiset(),
        distinct_windows(ps),
        is_neighbour(ps, focused, dir, r),
        is_neighbour(qs, focused, dir, s),
    ensures
        r == s,
{
    ps.to_multiset_ensures();
    qs.to_multiset_ensures();
    assert forall|p: Placement| ps.contains(p) == qs.contains(p) by {
        assert(ps.contains(p) <==> ps.to_multiset().count(p) > 0);
        assert(qs.contains(p) <==> qs.to_multiset().count(p) > 0);
    }
    lemma_placement_of_member(ps, focused);
    lemma_placement_of_member(qs, focused);
    if let Some(f) = placement_of(ps, focused) {
        assert(qs.contains(f));
        let g = placement_of(qs, focused)->Some_0;
        assert(ps.contains(g));
        let i = choose|i: int| 0 <= i < ps.len() && ps[i] == f;
        let j = choose|j: int| 0 <= j < ps.len() && ps[j] == g;
        assert(f == g) by {
            if i < j {
                assert(ps[i].window != ps[j].window);
            } else if j < i {
                assert(ps[j].window != ps[i].window);
            }
        }
        if visible(f) {
            match (r, s) {
                (Some(a), Some(b)) => {
                    let c = choose|c: Placement| #[trigger]
                        best_candidate(ps, f, dir, c) && c.window == a;
                    let d = choose|d: Placement| #[trigger]
                        best_candidate(qs, f, dir, d) && d.window == b;
                    assert(ps.contains(d) && qs.contains(c));
                    assert(ranks_before(f, c, d, dir));
                    assert(ranks_before(f, d, c, dir));
                },
                (Some(a), None) => {
                    let c = choose|c: Placement| #[trigger]
                        best_candidate(ps, f, dir, c) && c.window == a;
                    assert(qs.contains(c));
                },
                (None, Some(b)) => {
                    let d = choose|d: Placement| #[trigger]
                        best_candidate(qs, f, dir, d) && d.window == b;
                    assert(ps.contains(d));
                },
                (None, None) => {},
            }
        }
    } else {
        if let Some(g) = placement_of(qs, focused) {
            assert(ps.contains(g));
        }
    }
}

/// A focus move never wraps: the window it reaches is another one, visible,
/// and lies wholly beyond the edge of the focused window that faces `dir`.
pub proof fn law_direction_never_wraps(
    ps: Seq<Placement>,
    focused: WindowId,
    dir: Direction,
    w: WindowId,
)
    requires
        is_neighbour(ps, focused, dir, Some(w)),
    ensures
        w != focused,
        exists|c: Placement| #[trigger]
            ps.contains(c) && c.window == w && visible(c) && edge_gap(
                placement_of(ps, focused)->Some_0.rect,
                c.rect,
                dir,
            ) >= 0,
{
    lemma_placement_of_member(ps, focused);
    let f = placement_of(ps, focused)->Some_0;
    let c = choose|c: Placement| #[trigger] best_candidate(ps, f, dir, c) && c.window == w;
    assert(ps.contains(c));
}

} // verus!
